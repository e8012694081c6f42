//! What tmux and ps print about panes, read into what the tool needs: the
//! pane paths and terminals in the order they are tried, the panes and lines
//! of a preview, and the coder session ids that rollouts point to.
use vstd::prelude::*;

use crate::exporter::lookup::{
    dedupe_by_key, dedupe_by_keys, first_meta_from, first_session_meta, jget_bool_or_false,
    raw_roots_exec, raw_search_roots,
};
use crate::json::{jget_str, parse_json, spec_parse_json, text_eq, Json, JsonValue};
use crate::patterns::{first_uuid, opt_string};
use crate::sessions::{
    decimal_i64, extract_session_id_from_path, field, normalize_path_for_compare_on,
    parse_decimal_i64, path_key,
};
use crate::text::{
    contains, contains_str, is_blank, lines, lines_of, split_char, split_char_str, starts_with,
    starts_with_str, string_of_range, chars_vec, trim, trim_str, views,
};

verus! {

broadcast use vstd::std_specs::vec::group_vec_axioms;

// ---------------------------------------------------------------------------
// Rows of `tmux list-panes`
// ---------------------------------------------------------------------------

/// A row of `tmux list-panes -F "<value>\t#{pane_active}"`: the value,
/// trimmed, and whether the pane is the active one.
pub open spec fn pane_row(row: Seq<char>) -> (Seq<char>, bool) {
    let parts = split_char(row, '\t');
    (trim(parts[0]), field(parts, 1) == "1"@)
}

/// The rows of a pane listing.
pub open spec fn pane_rows(out: Seq<char>) -> Seq<(Seq<char>, bool)> {
    lines(out).map_values(|r: Seq<char>| pane_row(r))
}

/// One row of a pane listing.
fn pane_row_exec(row: &str) -> (r: (String, bool))
    ensures
        (r.0@, r.1) == pane_row(row@),
{
    proof {
        reveal_strlit("1");
        crate::text::lemma_split_char_nonempty(row@, '\t');
    }
    let parts = split_char_str(row, '\t');
    let value = trim_str(parts[0].as_str());
    let active = parts.len() > 1 && text_eq(parts[1].as_str(), "1");
    proof {
        if parts@.len() <= 1 {
            assert(field(views(parts@), 1) == Seq::<char>::empty());
            assert(Seq::<char>::empty() != "1"@) by {
                assert("1"@.len() == 1);
            }
        }
    }
    (value, active)
}

/// Rows (value, active, key) with a non-empty value whose key no earlier
/// such row has, as (value, active).
pub open spec fn distinct_rows(s: Seq<(Seq<char>, bool, Seq<char>)>) -> Seq<(Seq<char>, bool)>
    decreases s.len(),
{
    if s.len() == 0 {
        seq![]
    } else {
        let prev = distinct_rows(s.drop_last());
        let e = s.last();
        if e.0.len() == 0 || exists|j: int|
            0 <= j < s.len() - 1 && (#[trigger] s[j]).0.len() > 0 && s[j].2 == e.2 {
            prev
        } else {
            prev.push((e.0, e.1))
        }
    }
}

/// The values of the active rows, then of the others, each in order.
pub open spec fn active_first(s: Seq<(Seq<char>, bool)>) -> Seq<Seq<char>> {
    s.filter(|e: (Seq<char>, bool)| e.1).map_values(|e: (Seq<char>, bool)| e.0) + s.filter(
        |e: (Seq<char>, bool)| !e.1,
    ).map_values(|e: (Seq<char>, bool)| e.0)
}

/// The rows of a listing of pane paths, keyed by the form paths are compared in.
pub open spec fn path_rows(out: Seq<char>, windows: bool) -> Seq<(Seq<char>, bool, Seq<char>)> {
    let rows = pane_rows(out);
    Seq::new(rows.len(), |i: int| (rows[i].0, rows[i].1, path_key(rows[i].0, windows)))
}

/// The rows of a listing of pane terminals, keyed by the terminal itself.
pub open spec fn tty_rows(out: Seq<char>) -> Seq<(Seq<char>, bool, Seq<char>)> {
    let rows = pane_rows(out);
    Seq::new(rows.len(), |i: int| (rows[i].0, rows[i].1, rows[i].0))
}

/// Values of distinct keyed rows, active ones first.
fn active_first_exec(rows: &Vec<(String, bool, String)>) -> (r: Vec<String>)
    ensures
        views(r@) == active_first(
            distinct_rows(Seq::new(rows@.len(), |i: int| (rows@[i].0@, rows@[i].1, rows@[i].2@))),
        ),
{
    let ghost all = Seq::new(rows@.len(), |i: int| (rows@[i].0@, rows@[i].1, rows@[i].2@));
    let ghost pa = |e: (Seq<char>, bool)| e.1;
    let ghost po = |e: (Seq<char>, bool)| !e.1;
    let ghost val = |e: (Seq<char>, bool)| e.0;
    let mut active: Vec<String> = Vec::new();
    let mut other: Vec<String> = Vec::new();
    let mut seen: Vec<String> = Vec::new();
    let mut i: usize = 0;
    while i < rows.len()
        invariant
            i <= rows@.len(),
            all == Seq::new(rows@.len(), |i: int| (rows@[i].0@, rows@[i].1, rows@[i].2@)),
            forall|e: (Seq<char>, bool)| #[trigger] pa(e) == e.1,
            forall|e: (Seq<char>, bool)| #[trigger] po(e) == !e.1,
            forall|e: (Seq<char>, bool)| #[trigger] val(e) == e.0,
            views(active@) == distinct_rows(all.take(i as int)).filter(pa).map_values(val),
            views(other@) == distinct_rows(all.take(i as int)).filter(po).map_values(val),
            forall|k: Seq<char>|
                views(seen@).contains(k) <==> exists|j: int|
                    0 <= j < i && (#[trigger] all[j]).0.len() > 0 && all[j].2 == k,
        decreases rows.len() - i,
    {
        let ghost t = all.take(i + 1);
        proof {
            assert(t.drop_last() =~= all.take(i as int));
            assert(t.last() == all[i as int]);
        }
        let value = &rows[i].0;
        let key = &rows[i].2;
        let mut dup = false;
        let mut j: usize = 0;
        while j < seen.len()
            invariant
                j <= seen@.len(),
                dup <==> exists|m: int| 0 <= m < j && seen@[m]@ == key@,
            decreases seen.len() - j,
        {
            if text_eq(seen[j].as_str(), key.as_str()) {
                dup = true;
            }
            j = j + 1;
        }
        proof {
            if dup {
                let m = choose|m: int| 0 <= m < seen@.len() && seen@[m]@ == key@;
                assert(views(seen@)[m] == key@);
                assert(views(seen@).contains(key@));
            } else {
                assert forall|m: int| 0 <= m < views(seen@).len() implies views(seen@)[m] != key@ by {
                    assert(views(seen@)[m] == seen@[m]@);
                }
                assert(!views(seen@).contains(key@));
            }
            assert forall|jj: int| 0 <= jj < t.len() - 1 implies ((#[trigger] t[jj]).0.len() > 0 && t[jj].2
                == t.last().2) == ((all[jj]).0.len() > 0 && all[jj].2 == key@) by {
                assert(t[jj] == all[jj]);
            }
        }
        let keep = !value.as_str().is_empty() && !dup;
        let ghost d0 = distinct_rows(all.take(i as int));
        if keep {
            let ghost e = (value@, rows@[i as int].1);
            proof {
                assert(distinct_rows(t) == d0.push(e));
                d0.lemma_filter_push(e, pa);
                d0.lemma_filter_push(e, po);
            }
            let ghost old_s = seen@;
            seen.push(key.clone());
            proof {
                assert(views(seen@) =~= views(old_s).push(key@));
                assert forall|k: Seq<char>| views(seen@).contains(k) <==> exists|jj: int|
                    0 <= jj < i + 1 && (#[trigger] all[jj]).0.len() > 0 && all[jj].2 == k by {
                    if views(seen@).contains(k) && k != key@ {
                        let m = choose|m: int| 0 <= m < views(seen@).len() && views(seen@)[m] == k;
                        assert(views(old_s)[m] == k);
                        assert(views(old_s).contains(k));
                    }
                    if exists|jj: int| 0 <= jj < i + 1 && (#[trigger] all[jj]).0.len() > 0 && all[jj].2 == k {
                        if k != key@ {
                            let jj = choose|jj: int| 0 <= jj < i + 1 && (#[trigger] all[jj]).0.len() > 0 && all[jj].2 == k;
                            assert(jj < i);
                            assert(views(old_s).contains(k));
                            let m = choose|m: int| 0 <= m < views(old_s).len() && views(old_s)[m] == k;
                            assert(views(seen@)[m] == k);
                        } else {
                            assert(views(seen@)[views(old_s).len() as int] == k);
                        }
                    }
                }
            }
            if rows[i].1 {
                let ghost old_a = active@;
                active.push(value.clone());
                assert(views(active@) =~= views(old_a).push(value@));
                assert(distinct_rows(t).filter(pa).map_values(val) =~= d0.filter(pa).map_values(
                    val,
                ).push(value@));
                assert(distinct_rows(t).filter(po) == d0.filter(po));
            } else {
                let ghost old_o = other@;
                other.push(value.clone());
                assert(views(other@) =~= views(old_o).push(value@));
                assert(distinct_rows(t).filter(po).map_values(val) =~= d0.filter(po).map_values(
                    val,
                ).push(value@));
                assert(distinct_rows(t).filter(pa) == d0.filter(pa));
            }
        } else {
            proof {
                if dup && value@.len() > 0 {
                    assert(views(seen@).contains(key@));
                    let jj = choose|jj: int|
                        0 <= jj < i && (#[trigger] all[jj]).0.len() > 0 && all[jj].2 == key@;
                    assert(t[jj] == all[jj]);
                    assert(t.last().2 == key@);
                }
                assert(distinct_rows(t) == d0);
                assert forall|k: Seq<char>| views(seen@).contains(k) <==> exists|jj: int|
                    0 <= jj < i + 1 && (#[trigger] all[jj]).0.len() > 0 && all[jj].2 == k by {
                    if exists|jj: int| 0 <= jj < i + 1 && (#[trigger] all[jj]).0.len() > 0 && all[jj].2 == k {
                        let jj = choose|jj: int| 0 <= jj < i + 1 && (#[trigger] all[jj]).0.len() > 0 && all[jj].2 == k;
                        if jj == i {
                            assert(value@.len() > 0);
                            assert(views(seen@).contains(key@));
                        }
                    }
                }
            }
        }
        i = i + 1;
    }
    assert(all.take(i as int) =~= all);
    let mut out = active;
    let ghost a = out@;
    let mut k: usize = 0;
    while k < other.len()
        invariant
            k <= other@.len(),
            views(out@) == views(a) + views(other@).take(k as int),
        decreases other.len() - k,
    {
        let ghost old_o = out@;
        let x = other[k].clone();
        out.push(x);
        assert(out@ == old_o.push(x));
        assert(views(out@) =~= views(old_o).push(x@));
        assert(views(other@).take(k + 1) =~= views(other@).take(k as int).push(x@));
        assert(views(out@) =~= views(a) + views(other@).take(k + 1));
        k = k + 1;
    }
    assert(views(other@).take(k as int) =~= views(other@));
    out
}

/// The keyed rows of a listing.
fn keyed_rows(out: &str, by_path: bool, windows: bool) -> (r: Vec<(String, bool, String)>)
    ensures
        Seq::new(r@.len(), |i: int| (r@[i].0@, r@[i].1, r@[i].2@)) == if by_path {
            path_rows(out@, windows)
        } else {
            tty_rows(out@)
        },
{
    let ls = lines_of(out);
    let ghost rows = pane_rows(out@);
    let mut r: Vec<(String, bool, String)> = Vec::new();
    let mut i: usize = 0;
    while i < ls.len()
        invariant
            i <= ls@.len(),
            views(ls@) == lines(out@),
            rows == pane_rows(out@),
            r@.len() == i,
            forall|k: int|
                0 <= k < i ==> (#[trigger] r@[k]).0@ == rows[k].0 && r@[k].1 == rows[k].1 && r@[k].2@
                    == if by_path {
                    path_key(rows[k].0, windows)
                } else {
                    rows[k].0
                },
        decreases ls.len() - i,
    {
        let (value, active) = pane_row_exec(ls[i].as_str());
        assert(rows[i as int] == pane_row(ls@[i as int]@));
        let key = if by_path {
            normalize_path_for_compare_on(value.as_str(), windows)
        } else {
            value.clone()
        };
        r.push((value, active, key));
        i = i + 1;
    }
    proof {
        let got = Seq::new(r@.len(), |i: int| (r@[i].0@, r@[i].1, r@[i].2@));
        if by_path {
            assert(got =~= path_rows(out@, windows));
        } else {
            assert(got =~= tty_rows(out@));
        }
    }
    r
}

/// The current paths of a session's panes, from `tmux list-panes -F
/// "#{pane_current_path}\t#{pane_active}"`: each path once (as paths compare,
/// on Windows when `windows` holds), the active pane's first.
pub fn pane_paths_in_order(out: &str, windows: bool) -> (r: Vec<String>)
    ensures
        views(r@) == active_first(distinct_rows(path_rows(out@, windows))),
{
    let rows = keyed_rows(out, true, windows);
    active_first_exec(&rows)
}

/// The terminals of a session's panes, from `tmux list-panes -F
/// "#{pane_tty}\t#{pane_active}"`: each once, the active pane's first.
pub fn pane_ttys_in_order(out: &str) -> (r: Vec<String>)
    ensures
        views(r@) == active_first(distinct_rows(tty_rows(out@))),
{
    let rows = keyed_rows(out, false, false);
    active_first_exec(&rows)
}

// ---------------------------------------------------------------------------
// The preview of a session
// ---------------------------------------------------------------------------

/// What the preview pane shows: lines of the selected pane, the session's
/// pane ids, and which one is selected.
pub struct SessionPreview {
    pub lines: Vec<String>,
    pub pane_ids: Vec<String>,
    pub selected_idx: usize,
}

/// The mathematical form of a preview.
pub struct PreviewView {
    pub lines: Seq<Seq<char>>,
    pub pane_ids: Seq<Seq<char>>,
    pub selected_idx: nat,
}

impl View for SessionPreview {
    type V = PreviewView;

    open spec fn view(&self) -> PreviewView {
        PreviewView {
            lines: views(self.lines@),
            pane_ids: views(self.pane_ids@),
            selected_idx: self.selected_idx as nat,
        }
    }
}

/// The pane ids of the first `n` rows (those with an id), and the position
/// of the last active one among them, 0 when there is none.
pub open spec fn preview_panes_from(rows: Seq<(Seq<char>, bool)>, n: int) -> (Seq<Seq<char>>, int)
    decreases n,
{
    if n <= 0 || n > rows.len() {
        (seq![], 0)
    } else {
        let (ids, act) = preview_panes_from(rows, n - 1);
        let (p, a) = rows[n - 1];
        if p.len() == 0 {
            (ids, act)
        } else if a {
            (ids.push(p), ids.len() as int)
        } else {
            (ids.push(p), act)
        }
    }
}

/// The panes of a preview, from the first 24 rows of `tmux list-panes -F
/// "#{window_index}.#{pane_index}\t#{pane_active}"`.
pub open spec fn preview_panes(out: Seq<char>) -> (Seq<Seq<char>>, int) {
    let rows = pane_rows(out);
    preview_panes_from(rows, if rows.len() < 24 { rows.len() as int } else { 24 })
}

/// The first position of `x` in `s`.
pub open spec fn first_index(s: Seq<Seq<char>>, x: Seq<char>, i: int) -> Option<int>
    decreases s.len() - i,
{
    if i < 0 || i >= s.len() {
        None
    } else if s[i] == x {
        Some(i)
    } else {
        first_index(s, x, i + 1)
    }
}

/// The pane a preview shows: the one asked for when the session has it, else
/// the active one (at most the last), and the first when that is past the end.
pub open spec fn preview_index(ids: Seq<Seq<char>>, selected: Option<Seq<char>>, active: int) -> int {
    let fallback = if active < ids.len() - 1 { active } else if ids.len() > 0 { ids.len() - 1 } else { 0 };
    let i = match selected {
        Some(sel) => match first_index(ids, sel, 0) {
            Some(k) => k,
            None => fallback,
        },
        None => fallback,
    };
    if i >= ids.len() {
        0
    } else {
        i
    }
}

/// The lines a preview shows of `tmux capture-pane`: its last 24 lines; a
/// note when it failed or printed nothing.
pub open spec fn capture_lines_spec(code: i32, out: Seq<char>) -> Seq<Seq<char>> {
    if code != 0 {
        seq!["(pane preview unavailable)"@]
    } else {
        let ls = lines(out);
        if ls.len() == 0 {
            seq!["(pane is empty)"@]
        } else if ls.len() > 24 {
            ls.skip(ls.len() - 24)
        } else {
            ls
        }
    }
}

/// The next step of a preview once the panes are listed.
pub enum PreviewPlan {
    /// The preview is known without capturing a pane.
    Ready(SessionPreview),
    /// Capture the pane `pane_ids[selected_idx]`.
    Capture { pane_ids: Vec<String>, selected_idx: usize },
}

/// The mathematical form of a preview plan.
pub enum PreviewPlanView {
    Ready(PreviewView),
    Capture(Seq<Seq<char>>, nat),
}

impl View for PreviewPlan {
    type V = PreviewPlanView;

    open spec fn view(&self) -> PreviewPlanView {
        match self {
            PreviewPlan::Ready(p) => PreviewPlanView::Ready(p@),
            PreviewPlan::Capture { pane_ids, selected_idx } => PreviewPlanView::Capture(
                views(pane_ids@),
                *selected_idx as nat,
            ),
        }
    }
}

/// The plan of a preview, given what `tmux list-panes` exited with and printed.
pub open spec fn preview_plan_spec(code: i32, out: Seq<char>, selected: Option<Seq<char>>) -> PreviewPlanView {
    if code != 0 {
        PreviewPlanView::Ready(
            PreviewView { lines: seq!["(pane preview unavailable)"@], pane_ids: seq![], selected_idx: 0 },
        )
    } else {
        let (ids, act) = preview_panes(out);
        if ids.len() == 0 {
            PreviewPlanView::Ready(
                PreviewView { lines: seq!["(no panes)"@], pane_ids: ids, selected_idx: 0 },
            )
        } else {
            PreviewPlanView::Capture(ids, preview_index(ids, selected, act) as nat)
        }
    }
}

/// A vector of one text.
fn one_line(s: &str) -> (r: Vec<String>)
    ensures
        views(r@) == seq![s@],
{
    let mut v: Vec<String> = Vec::new();
    v.push(String::from_str(s));
    assert(views(v@) =~= seq![s@]);
    v
}

/// The first position of `x` in `s`.
fn first_index_exec(s: &Vec<String>, x: &str) -> (r: Option<usize>)
    ensures
        match r {
            Some(k) => first_index(views(s@), x@, 0) == Some(k as int),
            None => first_index(views(s@), x@, 0) is None,
        },
{
    let mut k: usize = 0;
    while k < s.len()
        invariant
            k <= s@.len(),
            first_index(views(s@), x@, 0) == first_index(views(s@), x@, k as int),
        decreases s.len() - k,
    {
        if text_eq(s[k].as_str(), x) {
            return Some(k);
        }
        k = k + 1;
    }
    None
}

/// What the preview of a session is once its panes are listed: a note when
/// listing failed or found no pane, else the pane to capture (the one asked
/// for when the session has it, else the active one).
pub fn plan_session_preview(list_code: i32, list_out: &str, selected_pane: Option<&str>) -> (r: PreviewPlan)
    ensures
        r@ == preview_plan_spec(
            list_code,
            list_out@,
            match selected_pane {
                Some(s) => Some(s@),
                None => None,
            },
        ),
{
    if list_code != 0 {
        let v: Vec<String> = Vec::new();
        assert(views(v@) =~= Seq::<Seq<char>>::empty());
        return PreviewPlan::Ready(
            SessionPreview { lines: one_line("(pane preview unavailable)"), pane_ids: v, selected_idx: 0 },
        );
    }
    let ls = lines_of(list_out);
    let ghost rows = pane_rows(list_out@);
    let n: usize = if ls.len() < 24 {
        ls.len()
    } else {
        24
    };
    let mut ids: Vec<String> = Vec::new();
    let mut act: usize = 0;
    let mut i: usize = 0;
    while i < n
        invariant
            i <= n <= ls@.len(),
            views(ls@) == lines(list_out@),
            rows == pane_rows(list_out@),
            (views(ids@), act as int) == preview_panes_from(rows, i as int),
        decreases n - i,
    {
        let (pane, active) = pane_row_exec(ls[i].as_str());
        assert(rows[i as int] == pane_row(ls@[i as int]@));
        if !pane.as_str().is_empty() {
            if active {
                act = ids.len();
            }
            let ghost old_ids = ids@;
            ids.push(pane);
            assert(views(ids@) =~= views(old_ids).push(rows[i as int].0));
        }
        i = i + 1;
    }
    let ghost sel = match selected_pane {
        Some(s) => Some(s@),
        None => None,
    };
    if ids.len() == 0 {
        return PreviewPlan::Ready(SessionPreview { lines: one_line("(no panes)"), pane_ids: ids, selected_idx: 0 });
    }
    let fallback: usize = if act < ids.len() - 1 {
        act
    } else {
        ids.len() - 1
    };
    let mut idx: usize = match selected_pane {
        Some(sp) => match first_index_exec(&ids, sp) {
            Some(k) => k,
            None => fallback,
        },
        None => fallback,
    };
    if idx >= ids.len() {
        idx = 0;
    }
    PreviewPlan::Capture { pane_ids: ids, selected_idx: idx }
}

/// The preview of a session once the selected pane is captured.
pub fn session_preview_data(
    pane_ids: Vec<String>,
    selected_idx: usize,
    capture_code: i32,
    capture_out: &str,
) -> (r: SessionPreview)
    ensures
        r@ == (PreviewView {
            lines: capture_lines_spec(capture_code, capture_out@),
            pane_ids: views(pane_ids@),
            selected_idx: selected_idx as nat,
        }),
{
    if capture_code != 0 {
        return SessionPreview { lines: one_line("(pane preview unavailable)"), pane_ids, selected_idx };
    }
    let ls = lines_of(capture_out);
    if ls.len() == 0 {
        return SessionPreview { lines: one_line("(pane is empty)"), pane_ids, selected_idx };
    }
    let start: usize = if ls.len() > 24 {
        ls.len() - 24
    } else {
        0
    };
    let mut tail: Vec<String> = Vec::new();
    let mut i: usize = start;
    while i < ls.len()
        invariant
            start <= i <= ls@.len(),
            views(tail@) == views(ls@).subrange(start as int, i as int),
        decreases ls.len() - i,
    {
        let x = ls[i].clone();
        let ghost old_t = tail@;
        tail.push(x);
        assert(views(tail@) =~= views(old_t).push(x@));
        assert(views(ls@).subrange(start as int, i + 1) =~= views(ls@).subrange(
            start as int,
            i as int,
        ).push(ls@[i as int]@));
        i = i + 1;
    }
    proof {
        if ls@.len() > 24 {
            assert(views(ls@).subrange(start as int, ls@.len() as int) =~= views(ls@).skip(
                ls@.len() - 24,
            ));
        } else {
            assert(views(ls@).subrange(0, ls@.len() as int) =~= views(ls@));
        }
    }
    SessionPreview { lines: tail, pane_ids, selected_idx }
}

// ---------------------------------------------------------------------------
// Terminals, processes and open files
// ---------------------------------------------------------------------------

/// A terminal's name without `/dev/`, as `ps -t` takes it.
pub open spec fn tty_short_spec(tty: Seq<char>) -> Seq<char> {
    if starts_with(tty, "/dev/"@) {
        tty.skip(5)
    } else {
        tty
    }
}

/// A terminal's name without `/dev/`.
pub fn tty_short(tty: &str) -> (r: String)
    ensures
        r@ == tty_short_spec(tty@),
{
    proof {
        reveal_strlit("/dev/");
    }
    if starts_with_str(tty, "/dev/") {
        let cs = chars_vec(tty);
        let r = string_of_range(cs.as_slice(), 5, cs.len());
        assert(r@ =~= tty@.skip(5));
        r
    } else {
        String::from_str(tty)
    }
}

/// The `i32` a trimmed text spells in decimal (`str::parse::<i32>`), if any.
pub open spec fn decimal_i32(t: Seq<char>) -> Option<i32> {
    match decimal_i64(trim(t)) {
        Some(v) => if i32::MIN <= v <= i32::MAX {
            Some(v as i32)
        } else {
            None
        },
        None => None,
    }
}

/// The process ids that `ps -o pid=` prints, one per line; lines that are not
/// numbers are passed over.
pub open spec fn pids_spec(ls: Seq<Seq<char>>) -> Seq<i32>
    decreases ls.len(),
{
    if ls.len() == 0 {
        seq![]
    } else {
        match decimal_i32(ls.last()) {
            Some(p) => pids_spec(ls.drop_last()).push(p),
            None => pids_spec(ls.drop_last()),
        }
    }
}

/// The process ids that `ps -o pid=` printed.
pub fn parse_pids(out: &str) -> (r: Vec<i32>)
    ensures
        r@ == pids_spec(lines(out@)),
{
    let ls = lines_of(out);
    let mut pids: Vec<i32> = Vec::new();
    let mut i: usize = 0;
    while i < ls.len()
        invariant
            i <= ls@.len(),
            pids@ == pids_spec(views(ls@).take(i as int)),
        decreases ls.len() - i,
    {
        assert(views(ls@).take(i + 1).drop_last() =~= views(ls@).take(i as int));
        let t = trim_str(ls[i].as_str());
        match parse_decimal_i64(t.as_str()) {
            Some(v) => {
                if -2147483648 <= v && v <= 2147483647 {
                    pids.push(v as i32);
                }
            },
            None => {},
        }
        i = i + 1;
    }
    assert(views(ls@).take(i as int) =~= views(ls@));
    pids
}

/// The session id that a file a process holds open points to: the UUID of a
/// coder rollout under `/.code/sessions/`.
pub open spec fn fd_target_id(target: Seq<char>) -> Option<Seq<char>> {
    if contains(target, "/.code/sessions/"@) && contains(target, "rollout-"@) {
        first_uuid(target)
    } else {
        None
    }
}

/// The session id that an open file points to, if it is a coder rollout.
pub fn session_id_from_fd_target(target: &str) -> (r: Option<String>)
    ensures
        opt_string(r) == fd_target_id(target@),
{
    if contains_str(target, "/.code/sessions/") && contains_str(target, "rollout-") {
        extract_session_id_from_path(target)
    } else {
        None
    }
}

// ---------------------------------------------------------------------------
// Sessions by working directory
// ---------------------------------------------------------------------------

/// The working directory a rollout's metadata records, from its lines.
pub open spec fn meta_cwd_spec(lines: Seq<Seq<char>>) -> Option<Seq<char>> {
    match first_meta_from(lines, 0) {
        Some(Some(p)) => jget_str(p, "cwd"@),
        _ => None,
    }
}

/// The working directory a rollout's metadata records.
pub fn session_meta_cwd(lines: &Vec<String>) -> (r: Option<String>)
    ensures
        opt_string(r) == meta_cwd_spec(views(lines@)),
{
    match first_session_meta(lines) {
        Some(p) => match p.get("cwd") {
            Some(v) => match v.as_str() {
                Some(s) => Some(String::from_str(s)),
                None => None,
            },
            None => None,
        },
        None => None,
    }
}

/// The session id and rollout path of a catalog record that is not deleted.
pub open spec fn cwd_catalog_record_spec(rec: Json) -> Option<(Seq<char>, Seq<char>)> {
    if jget_bool_or_false(rec, "deleted"@) {
        None
    } else {
        match (jget_str(rec, "session_id"@), jget_str(rec, "rollout_path"@)) {
            (Some(a), Some(b)) => Some((a, b)),
            _ => None,
        }
    }
}

/// The session id and rollout path of a catalog line, if it names a session
/// that is not deleted.
pub open spec fn cwd_catalog_line_spec(line: Seq<char>) -> Option<(Seq<char>, Seq<char>)> {
    if trim(line).len() == 0 {
        None
    } else {
        match spec_parse_json(line) {
            Ok(rec) => cwd_catalog_record_spec(rec),
            Err(_) => None,
        }
    }
}

/// The session id and rollout path of a parsed catalog record that is not deleted.
pub fn cwd_catalog_record(record: &JsonValue) -> (r: Option<(String, String)>)
    ensures
        match r {
            Some((a, b)) => cwd_catalog_record_spec(record@) == Some((a@, b@)),
            None => cwd_catalog_record_spec(record@) is None,
        },
{
    let deleted = match record.get("deleted") {
        Some(v) => match v.as_bool() {
            Some(b) => b,
            None => false,
        },
        None => false,
    };
    if deleted {
        return None;
    }
    let sid = match record.get("session_id") {
        Some(v) => v.as_str(),
        None => None,
    };
    let rel = match record.get("rollout_path") {
        Some(v) => v.as_str(),
        None => None,
    };
    match (sid, rel) {
        (Some(a), Some(b)) => Some((String::from_str(a), String::from_str(b))),
        _ => None,
    }
}

/// The session id and rollout path of a catalog line, if any.
pub fn cwd_catalog_entry(line: &str) -> (r: Option<(String, String)>)
    ensures
        match r {
            Some((a, b)) => cwd_catalog_line_spec(line@) == Some((a@, b@)),
            None => cwd_catalog_line_spec(line@) is None,
        },
{
    if is_blank(line) {
        return None;
    }
    match parse_json(line) {
        Ok(rec) => cwd_catalog_record(&rec),
        Err(_) => None,
    }
}

/// The session ids and rollout paths that catalog lines name, in order.
pub open spec fn cwd_catalog_entries(lines: Seq<Seq<char>>) -> Seq<(Seq<char>, Seq<char>)>
    decreases lines.len(),
{
    if lines.len() == 0 {
        seq![]
    } else {
        let prev = cwd_catalog_entries(lines.drop_last());
        match cwd_catalog_line_spec(lines.last()) {
            Some(e) => prev.push(e),
            None => prev,
        }
    }
}

/// The views of a list of text pairs.
pub open spec fn pair_views(v: Seq<(String, String)>) -> Seq<(Seq<char>, Seq<char>)> {
    v.map_values(|p: (String, String)| (p.0@, p.1@))
}

/// The session ids and rollout paths that catalog lines name, newest (last
/// line) first.
pub fn cwd_catalog_entries_newest_first(lines: &Vec<String>) -> (r: Vec<(String, String)>)
    ensures
        pair_views(r@) == cwd_catalog_entries(views(lines@)).reverse(),
{
    let ghost ls = views(lines@);
    let mut fwd: Vec<(String, String)> = Vec::new();
    let mut i: usize = 0;
    while i < lines.len()
        invariant
            i <= lines@.len(),
            ls == views(lines@),
            pair_views(fwd@) == cwd_catalog_entries(ls.take(i as int)),
        decreases lines.len() - i,
    {
        assert(ls.take(i as int + 1).drop_last() =~= ls.take(i as int));
        assert(ls.take(i as int + 1).last() == lines@[i as int]@);
        match cwd_catalog_entry(lines[i].as_str()) {
            Some(e) => {
                let ghost before = fwd@;
                let ghost ev = (e.0@, e.1@);
                fwd.push(e);
                assert(pair_views(fwd@) =~= pair_views(before).push(ev));
            },
            None => {},
        }
        i = i + 1;
    }
    assert(ls.take(lines@.len() as int) =~= ls);
    let ghost all = pair_views(fwd@);
    let mut out: Vec<(String, String)> = Vec::new();
    let mut j: usize = fwd.len();
    while j > 0
        invariant
            j <= fwd@.len(),
            all == pair_views(fwd@),
            out@.len() == fwd@.len() - j,
            forall|t: int| 0 <= t < out@.len() ==> #[trigger] pair_views(out@)[t] == all[all.len() - 1 - t],
        decreases j,
    {
        j = j - 1;
        let ghost before = out@;
        let p = (fwd[j].0.clone(), fwd[j].1.clone());
        out.push(p);
        assert forall|t: int| 0 <= t < out@.len() implies #[trigger] pair_views(out@)[t] == all[all.len() - 1 - t] by {
            if t < before.len() {
                assert(out@[t] == before[t]);
                assert(pair_views(out@)[t] == pair_views(before)[t]);
            } else {
                assert(pair_views(out@)[t] == all[j as int]);
            }
        }
    }
    assert(pair_views(out@) =~= all.reverse());
    out
}

/// The ids of candidates (session id, recorded working directory) whose
/// directory is `cwd` as paths compare (on Windows when `windows` holds),
/// each once, in order.
pub open spec fn ids_matching_cwd(
    cwd: Seq<char>,
    cands: Seq<(Option<Seq<char>>, Option<Seq<char>>)>,
    windows: bool,
) -> Seq<Seq<char>>
    decreases cands.len(),
{
    if cands.len() == 0 {
        seq![]
    } else {
        let prev = ids_matching_cwd(cwd, cands.drop_last(), windows);
        match cands.last() {
            (Some(id), Some(mc)) => if path_key(mc, windows) == path_key(cwd, windows)
                && !prev.contains(id) {
                prev.push(id)
            } else {
                prev
            },
            _ => prev,
        }
    }
}

/// The view of a candidate.
pub open spec fn cand_view(c: (Option<String>, Option<String>)) -> (Option<Seq<char>>, Option<Seq<char>>) {
    (opt_string(c.0), opt_string(c.1))
}

/// Whether `s` holds `x`.
fn holds(s: &Vec<String>, x: &str) -> (r: bool)
    ensures
        r == views(s@).contains(x@),
{
    let mut i: usize = 0;
    while i < s.len()
        invariant
            i <= s@.len(),
            forall|j: int| 0 <= j < i ==> s@[j]@ != x@,
        decreases s.len() - i,
    {
        if text_eq(s[i].as_str(), x) {
            assert(views(s@)[i as int] == x@);
            return true;
        }
        i = i + 1;
    }
    assert forall|j: int| 0 <= j < views(s@).len() implies views(s@)[j] != x@ by {
        assert(views(s@)[j] == s@[j]@);
    }
    false
}

/// The ids of the candidates whose recorded directory is `cwd`.
pub fn session_ids_matching_cwd(
    cwd: &str,
    cands: &Vec<(Option<String>, Option<String>)>,
    windows: bool,
) -> (r: Vec<String>)
    ensures
        views(r@) == ids_matching_cwd(cwd@, Seq::new(cands@.len(), |i: int| cand_view(cands@[i])), windows),
{
    let ghost cs = Seq::new(cands@.len(), |i: int| cand_view(cands@[i]));
    let key = normalize_path_for_compare_on(cwd, windows);
    let mut out: Vec<String> = Vec::new();
    let mut i: usize = 0;
    while i < cands.len()
        invariant
            i <= cands@.len(),
            cs == Seq::new(cands@.len(), |i: int| cand_view(cands@[i])),
            key@ == path_key(cwd@, windows),
            views(out@) == ids_matching_cwd(cwd@, cs.take(i as int), windows),
        decreases cands.len() - i,
    {
        assert(cs.take(i + 1).drop_last() =~= cs.take(i as int));
        assert(cs.take(i + 1).last() == cand_view(cands@[i as int]));
        match (&cands[i].0, &cands[i].1) {
            (Some(id), Some(mc)) => {
                let k = normalize_path_for_compare_on(mc.as_str(), windows);
                if text_eq(k.as_str(), key.as_str()) && !holds(&out, id.as_str()) {
                    let ghost old_o = out@;
                    out.push(id.clone());
                    assert(views(out@) =~= views(old_o).push(id@));
                }
            },
            _ => {},
        }
        i = i + 1;
    }
    assert(cs.take(i as int) =~= cs);
    out
}

/// The ids of scanned rollouts (path, recorded working directory) whose
/// directory is `cwd`: each rollout's id is the first UUID in its path.
pub fn session_ids_from_cwd_scan_rollouts(
    cwd: &str,
    rollouts: &Vec<(String, Option<String>)>,
    windows: bool,
) -> (r: Vec<String>)
    ensures
        views(r@) == ids_matching_cwd(
            cwd@,
            Seq::new(rollouts@.len(), |i: int| (first_uuid(rollouts@[i].0@), opt_string(rollouts@[i].1))),
            windows,
        ),
{
    let mut cands: Vec<(Option<String>, Option<String>)> = Vec::new();
    let mut i: usize = 0;
    while i < rollouts.len()
        invariant
            i <= rollouts@.len(),
            cands@.len() == i,
            forall|k: int| 0 <= k < i ==> #[trigger] cand_view(cands@[k]) == (first_uuid(rollouts@[k].0@), opt_string(rollouts@[k].1)),
        decreases rollouts.len() - i,
    {
        let id = extract_session_id_from_path(rollouts[i].0.as_str());
        let mc = match &rollouts[i].1 {
            Some(m) => Some(m.clone()),
            None => None,
        };
        cands.push((id, mc));
        i = i + 1;
    }
    assert(Seq::new(cands@.len(), |i: int| cand_view(cands@[i])) =~= Seq::new(
        rollouts@.len(),
        |i: int| (first_uuid(rollouts@[i].0@), opt_string(rollouts@[i].1)),
    ));
    session_ids_matching_cwd(cwd, &cands, windows)
}

/// The roots paired with the form in which paths compare, the key by which
/// the picker's scan drops duplicates.
pub open spec fn path_keyed(s: Seq<Seq<char>>, windows: bool) -> Seq<(Seq<char>, Seq<char>)> {
    Seq::new(s.len(), |i: int| (s[i], path_key(s[i], windows)))
}

/// The directories the picker's scan of rollouts searches: the raw roots
/// (see `raw_search_roots`), each kept once as paths compare (on Windows when
/// `windows` holds).
pub fn rollout_search_roots(
    code_dir: &str,
    file_name: Option<&str>,
    parent: Option<&str>,
    sessions_child: Option<&str>,
    windows: bool,
) -> (r: Vec<String>)
    ensures
        views(r@) == dedupe_by_key(
            path_keyed(
                raw_search_roots(
                    code_dir@,
                    match file_name {
                        Some(n) => Some(n@),
                        None => None,
                    },
                    match parent {
                        Some(p) => Some(p@),
                        None => None,
                    },
                    match sessions_child {
                        Some(c) => Some(c@),
                        None => None,
                    },
                ),
                windows,
            ),
        ),
{
    let roots = raw_roots_exec(code_dir, file_name, parent, sessions_child);
    let mut keys: Vec<String> = Vec::new();
    let mut i: usize = 0;
    while i < roots.len()
        invariant
            i <= roots@.len(),
            keys@.len() == i,
            forall|k: int| 0 <= k < i ==> #[trigger] keys@[k]@ == path_key(roots@[k]@, windows),
        decreases roots.len() - i,
    {
        keys.push(normalize_path_for_compare_on(roots[i].as_str(), windows));
        i = i + 1;
    }
    let ghost rs = roots@;
    let r = dedupe_by_keys(roots, &keys);
    assert(Seq::new(rs.len(), |i: int| (rs[i]@, keys@[i]@)) =~= path_keyed(views(rs), windows));
    r
}

// ---------------------------------------------------------------------------
// Finding the coder session of a tmux session
// ---------------------------------------------------------------------------

/// None of the first `n` pane terminals showed a coder session.
pub open spec fn no_tty_hit<F: Fn(&String) -> Option<String>>(by_tty: F, ttys: Seq<String>, n: int) -> bool {
    forall|j: int| 0 <= j < n ==> call_ensures(by_tty, (&ttys[j],), None::<String>)
}

/// The directory `path` was not the directory of exactly one coder session.
pub open spec fn cwd_not_unique<G: Fn(&String) -> Vec<String>>(by_cwd: G, path: &String) -> bool {
    exists|m: Vec<String>| #[trigger] call_ensures(by_cwd, (path,), m) && m@.len() != 1
}

/// None of the first `n` pane directories was the directory of exactly one
/// coder session.
pub open spec fn no_unique_cwd<G: Fn(&String) -> Vec<String>>(by_cwd: G, paths: Seq<String>, n: int) -> bool {
    forall|j: int| 0 <= j < n ==> #[trigger] cwd_not_unique(by_cwd, &paths[j])
}

/// The directory `path` was the directory of exactly one coder session, `id`.
pub open spec fn unique_cwd_is<G: Fn(&String) -> Vec<String>>(by_cwd: G, path: &String, id: String) -> bool {
    exists|m: Vec<String>| #[trigger] call_ensures(by_cwd, (path,), m) && m@.len() == 1 && m@[0] == id
}

/// The coder session that runs in a tmux session: the first pane terminal,
/// in the order given, whose processes show one (`by_tty`); failing that, the
/// first pane directory (from `paths`, asked for only then) in which exactly
/// one coder session ran (`by_cwd`); nothing otherwise.
pub fn find_coder_session_id<F, P, G>(ttys: &Vec<String>, by_tty: F, paths: P, by_cwd: G) -> (r: Option<String>) where
    F: Fn(&String) -> Option<String>,
    P: Fn() -> Vec<String>,
    G: Fn(&String) -> Vec<String>,

    requires
        forall|t: &String| #[trigger] by_tty.requires((t,)),
        paths.requires(()),
        forall|t: &String| #[trigger] by_cwd.requires((t,)),
    ensures
        match r {
            Some(id) => (exists|i: int|
                0 <= i < ttys@.len() && no_tty_hit(by_tty, ttys@, i) && #[trigger] call_ensures(
                    by_tty,
                    (&ttys@[i],),
                    Some(id),
                )) || (no_tty_hit(by_tty, ttys@, ttys@.len() as int) && exists|ps: Vec<String>, k: int|
                #![trigger call_ensures(paths, (), ps), ps@[k]]
                call_ensures(paths, (), ps) && 0 <= k < ps@.len() && no_unique_cwd(by_cwd, ps@, k)
                    && unique_cwd_is(by_cwd, &ps@[k], id)),
            None => no_tty_hit(by_tty, ttys@, ttys@.len() as int) && exists|ps: Vec<String>|
                #[trigger] call_ensures(paths, (), ps) && no_unique_cwd(by_cwd, ps@, ps@.len() as int),
        },
{
    let mut i: usize = 0;
    while i < ttys.len()
        invariant
            i <= ttys@.len(),
            forall|t: &String| #[trigger] by_tty.requires((t,)),
            no_tty_hit(by_tty, ttys@, i as int),
        decreases ttys.len() - i,
    {
        let found = by_tty(&ttys[i]);
        match found {
            Some(id) => {
                assert(call_ensures(by_tty, (&ttys@[i as int],), Some(id)));
                return Some(id);
            },
            None => {},
        }
        i = i + 1;
    }
    let ps = paths();
    let mut k: usize = 0;
    while k < ps.len()
        invariant
            k <= ps@.len(),
            forall|t: &String| #[trigger] by_cwd.requires((t,)),
            no_tty_hit(by_tty, ttys@, ttys@.len() as int),
            call_ensures(paths, (), ps),
            no_unique_cwd(by_cwd, ps@, k as int),
        decreases ps.len() - k,
    {
        let m = by_cwd(&ps[k]);
        assert(call_ensures(by_cwd, (&ps@[k as int],), m));
        if m.len() == 1 {
            let id = m[0].clone();
            assert(unique_cwd_is(by_cwd, &ps@[k as int], id));
            return Some(id);
        }
        assert(cwd_not_unique(by_cwd, &ps@[k as int]));
        assert(no_unique_cwd(by_cwd, ps@, k + 1)) by {
            assert forall|j: int| 0 <= j < k + 1 implies #[trigger] cwd_not_unique(by_cwd, &ps@[j]) by {
                if j < k {
                    assert(cwd_not_unique(by_cwd, &ps@[j]));
                }
            }
        }
        k = k + 1;
    }
    None
}

} // verus!
