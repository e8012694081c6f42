//! The sizes and texts of the session picker: column widths, the centered
//! modal, names cut to fit, how long ago a session was used, and word
//! deletion in the input line.
use vstd::prelude::*;

use crate::sessions::{session_views, SessionInfo, SessionView};
use crate::text::{
    chars_vec, char_count, decimal_int, i64_to_string, is_ws, push_str, string_of_range, trim_end, views,
};

verus! {

broadcast use vstd::std_specs::vec::group_vec_axioms;

// ---------------------------------------------------------------------------
// Widths
// ---------------------------------------------------------------------------

/// The longest name, in characters, of the sessions; `None` when there is none.
pub open spec fn longest_name(s: Seq<SessionView>) -> Option<nat>
    decreases s.len(),
{
    if s.len() == 0 {
        None
    } else {
        match longest_name(s.drop_last()) {
            Some(m) => Some(if s.last().name.len() > m { s.last().name.len() } else { m }),
            None => Some(s.last().name.len()),
        }
    }
}

/// The width the session list would like: the longest name (12 when there is
/// none), kept between 12 and 44, plus 2 of spacing, 10 for the age column
/// and 4 of border and marker.
pub open spec fn desired_width_spec(s: Seq<SessionView>) -> int {
    let m = match longest_name(s) {
        Some(m) => m as int,
        None => 12,
    };
    let c = if m < 12 {
        12
    } else if m > 44 {
        44
    } else {
        m
    };
    c + 16
}

/// The width the session list would like for `items`.
pub fn desired_sessions_panel_width(items: &[SessionInfo]) -> (r: u16)
    ensures
        r == desired_width_spec(session_views(items@)),
        28 <= r <= 60,
{
    let ghost sv = session_views(items@);
    let mut longest: Option<usize> = None;
    let mut i: usize = 0;
    while i < items.len()
        invariant
            i <= items@.len(),
            sv == session_views(items@),
            match longest {
                Some(m) => longest_name(sv.take(i as int)) == Some(m as nat),
                None => longest_name(sv.take(i as int)) is None,
            },
        decreases items.len() - i,
    {
        let n = char_count(items[i].name.as_str());
        assert(sv.take(i + 1).drop_last() =~= sv.take(i as int));
        longest = match longest {
            Some(m) => Some(if n > m { n } else { m }),
            None => Some(n),
        };
        i = i + 1;
    }
    assert(sv.take(i as int) =~= sv);
    let m: usize = match longest {
        Some(m) => m,
        None => 12,
    };
    let c: u16 = if m < 12 {
        12
    } else if m > 44 {
        44
    } else {
        m as u16
    };
    c + 16
}

/// The width of the session column next to the preview: the desired width,
/// at least 20, at most the area less one (at least 1), and, when the area is
/// wider than 56, leaving 36 for the preview.
pub open spec fn sessions_column_spec(total: int, desired: int) -> int {
    let room = if total - 1 > 1 { total - 1 } else { 1 };
    let w0 = if desired > 20 { desired } else { 20 };
    let w1 = if w0 < room { w0 } else { room };
    if total > 56 && w1 > total - 36 {
        total - 36
    } else {
        w1
    }
}

/// The width of the session column when the preview is shown.
pub fn sessions_column_width(total: u16, desired: u16) -> (r: u16)
    ensures
        r == sessions_column_spec(total as int, desired as int),
{
    let room: u16 = if total > 2 {
        total - 1
    } else {
        1
    };
    let w0 = if desired > 20 {
        desired
    } else {
        20
    };
    let w1 = if w0 < room {
        w0
    } else {
        room
    };
    if total > 56 && w1 > total - 36 {
        total - 36
    } else {
        w1
    }
}

/// The widths of the name and age columns inside a session list of width
/// `list_width`: the age column takes up to 10 of the inner width beyond 8,
/// the name column the rest beyond 2 of spacing, at least 8.
pub open spec fn list_columns_spec(list_width: int) -> (int, int) {
    let content = if list_width > 4 { list_width - 4 } else { 0 };
    let spare = if content > 8 { content - 8 } else { 0 };
    let ago = if spare < 10 { spare } else { 10 };
    let name0 = if content > 2 + ago { content - (2 + ago) } else { 0 };
    (if name0 > 8 { name0 } else { 8 }, ago)
}

/// The widths of the name and age columns.
pub fn list_columns(list_width: u16) -> (r: (usize, usize))
    ensures
        (r.0 as int, r.1 as int) == list_columns_spec(list_width as int),
{
    let content: usize = if list_width > 4 {
        (list_width - 4) as usize
    } else {
        0
    };
    let spare: usize = if content > 8 {
        content - 8
    } else {
        0
    };
    let ago: usize = if spare < 10 {
        spare
    } else {
        10
    };
    let name0: usize = if content > 2 + ago {
        content - (2 + ago)
    } else {
        0
    };
    (if name0 > 8 {
        name0
    } else {
        8
    }, ago)
}

/// A rectangle of the terminal, in cells.
#[derive(Clone, Copy, Debug, PartialEq, Eq, Structural)]
pub struct Area {
    pub x: u16,
    pub y: u16,
    pub width: u16,
    pub height: u16,
}

/// The rectangle of `width` by `height` (at least 12 by 5, at most the area
/// less a cell on each side, at least 1) centered in `area`.
pub open spec fn centered_spec(area: Area, width: int, height: int) -> Area {
    let wroom = if area.width > 2 { area.width - 2 } else { 1 };
    let hroom = if area.height > 2 { area.height - 2 } else { 1 };
    let w0 = if width > 12 { width } else { 12 };
    let h0 = if height > 5 { height } else { 5 };
    let w = if w0 < wroom { w0 } else { wroom };
    let h = if h0 < hroom { h0 } else { hroom };
    let x = area.x + (if area.width > w { area.width - w } else { 0 }) / 2;
    let y = area.y + (if area.height > h { area.height - h } else { 0 }) / 2;
    Area { x: x as u16, y: y as u16, width: w as u16, height: h as u16 }
}

/// The rectangle of a modal, centered in `area`.
pub fn centered_rect(area: Area, width: u16, height: u16) -> (r: Area)
    requires
        area.x + area.width <= u16::MAX,
        area.y + area.height <= u16::MAX,
    ensures
        r == centered_spec(area, width as int, height as int),
        r.x + r.width <= area.x + area.width || area.width <= 2,
{
    let wroom: u16 = if area.width > 2 {
        area.width - 2
    } else {
        1
    };
    let hroom: u16 = if area.height > 2 {
        area.height - 2
    } else {
        1
    };
    let w0 = if width > 12 {
        width
    } else {
        12
    };
    let h0 = if height > 5 {
        height
    } else {
        5
    };
    let w = if w0 < wroom {
        w0
    } else {
        wroom
    };
    let h = if h0 < hroom {
        h0
    } else {
        hroom
    };
    let dx: u16 = if area.width > w {
        area.width - w
    } else {
        0
    };
    let dy: u16 = if area.height > h {
        area.height - h
    } else {
        0
    };
    Area { x: area.x + dx / 2, y: area.y + dy / 2, width: w, height: h }
}

/// The longest of the lines, in characters; 24 when there is none.
pub open spec fn longest_line(s: Seq<Seq<char>>) -> int
    decreases s.len(),
{
    if s.len() == 0 {
        24
    } else if s.len() == 1 {
        s[0].len() as int
    } else {
        let m = longest_line(s.drop_last());
        if s.last().len() > m {
            s.last().len() as int
        } else {
            m
        }
    }
}

/// The size of a modal that shows `lines`: the longest line plus 8, between
/// 40 and 72 wide; the line count plus 4, between 7 and 16 high.
pub open spec fn modal_size_spec(lines: Seq<Seq<char>>) -> (int, int) {
    let w = longest_line(lines) + 8;
    let h = lines.len() as int + 4;
    (if w < 40 { 40 } else if w > 72 { 72 } else { w }, if h < 7 { 7 } else if h > 16 { 16 } else { h })
}

/// The size of a modal that shows `lines`.
pub fn modal_size(lines: &Vec<String>) -> (r: (u16, u16))
    ensures
        (r.0 as int, r.1 as int) == modal_size_spec(views(lines@)),
{
    let ghost ls = views(lines@);
    let mut longest: usize = 24;
    let mut i: usize = 0;
    while i < lines.len()
        invariant
            i <= lines@.len(),
            ls == views(lines@),
            i > 0 ==> longest == longest_line(ls.take(i as int)),
            i == 0 ==> longest == 24,
        decreases lines.len() - i,
    {
        let n = char_count(lines[i].as_str());
        assert(ls.take(i + 1).drop_last() =~= ls.take(i as int));
        if i == 0 || n > longest {
            longest = n;
        }
        i = i + 1;
    }
    assert(ls.take(i as int) =~= ls);
    let w: u16 = if longest < 32 {
        40
    } else if longest > 64 {
        72
    } else {
        (longest + 8) as u16
    };
    let h: u16 = if lines.len() < 3 {
        7
    } else if lines.len() > 12 {
        16
    } else {
        (lines.len() + 4) as u16
    };
    (w, h)
}

// ---------------------------------------------------------------------------
// Texts
// ---------------------------------------------------------------------------

/// `text` cut to `max_chars` characters, its end replaced by `…` when cut.
pub open spec fn ellipsized(text: Seq<char>, max_chars: nat) -> Seq<char> {
    if max_chars == 0 {
        Seq::empty()
    } else if text.len() <= max_chars {
        text
    } else if max_chars == 1 {
        seq!['…']
    } else {
        text.take(max_chars - 1).push('…')
    }
}

/// `text` cut to fit in `max_chars` characters.
pub fn ellipsize(text: &str, max_chars: usize) -> (r: String)
    ensures
        r@ == ellipsized(text@, max_chars as nat),
        r@.len() <= max_chars,
{
    if max_chars == 0 {
        return String::new();
    }
    let cs = chars_vec(text);
    if cs.len() <= max_chars {
        return String::from_str(text);
    }
    if max_chars == 1 {
        let mut r = String::new();
        r.push('…');
        assert(r@ =~= seq!['…']);
        return r;
    }
    let mut r = string_of_range(cs.as_slice(), 0, max_chars - 1);
    r.push('…');
    assert(r@ =~= text@.take(max_chars - 1).push('…'));
    r
}

/// `s` without its trailing run of non-whitespace characters.
pub open spec fn drop_trailing_word(s: Seq<char>) -> Seq<char>
    decreases s.len(),
{
    if s.len() > 0 && !is_ws(s.last()) {
        drop_trailing_word(s.drop_last())
    } else {
        s
    }
}

/// The text after deleting its last word: trailing whitespace, then the
/// non-whitespace run before it.
pub open spec fn without_last_word(s: Seq<char>) -> Seq<char> {
    drop_trailing_word(trim_end(s))
}

/// Deletes the last word of `text`.
pub fn delete_last_word(text: &mut String)
    ensures
        final(text)@ == without_last_word(old(text)@),
{
    let cs = chars_vec(text.as_str());
    let mut n = cs.len();
    assert(cs@.take(n as int) =~= cs@);
    while n > 0 && crate::text::is_whitespace(cs[n - 1])
        invariant
            n <= cs@.len(),
            trim_end(cs@) == trim_end(cs@.take(n as int)),
        decreases n,
    {
        assert(cs@.take(n as int).drop_last() =~= cs@.take(n - 1));
        n = n - 1;
    }
    let ghost m = n;
    assert(trim_end(cs@.take(m as int)) == cs@.take(m as int));
    while n > 0 && !crate::text::is_whitespace(cs[n - 1])
        invariant
            n <= m <= cs@.len(),
            drop_trailing_word(cs@.take(m as int)) == drop_trailing_word(cs@.take(n as int)),
        decreases n,
    {
        assert(cs@.take(n as int).drop_last() =~= cs@.take(n - 1));
        n = n - 1;
    }
    *text = string_of_range(cs.as_slice(), 0, n);
    assert(text@ =~= cs@.take(n as int));
}

/// Removes the last character of `text`, if any (`String::pop`).
pub fn pop_char(text: &mut String)
    ensures
        final(text)@ == if old(text)@.len() > 0 {
            old(text)@.drop_last()
        } else {
            old(text)@
        },
{
    let cs = chars_vec(text.as_str());
    if cs.len() > 0 {
        *text = string_of_range(cs.as_slice(), 0, cs.len() - 1);
        assert(text@ =~= cs@.drop_last());
    }
}

// ---------------------------------------------------------------------------
// Ages
// ---------------------------------------------------------------------------

/// How long ago a time was, as the session list shows it: seconds, minutes,
/// hours (under two days), days (under two weeks), weeks (under eight);
/// `None` past that, for the caller to show the local date; `—` when the time
/// is unknown (not positive).
pub open spec fn ago_spec(ts: i64, now: i64) -> Option<Seq<char>> {
    if ts <= 0 {
        Some(seq!['—'])
    } else {
        let delta = if now - ts > 0 { now - ts } else { 0 };
        let m = delta / 60;
        let h = m / 60;
        let d = h / 24;
        let w = d / 7;
        if delta < 60 {
            Some(decimal_int(delta) + "s"@)
        } else if m < 60 {
            Some(decimal_int(m) + "m"@)
        } else if h < 48 {
            Some(decimal_int(h) + "h"@)
        } else if d < 14 {
            Some(decimal_int(d) + "d"@)
        } else if w < 8 {
            Some(decimal_int(w) + "w"@)
        } else {
            None
        }
    }
}

/// How long ago `ts` was at `now` (both in seconds since the epoch).
pub fn ago_text(ts: i64, now: i64) -> (r: Option<String>)
    requires
        now >= 0,
    ensures
        crate::patterns::opt_string(r) == ago_spec(ts, now),
{
    proof {
        reveal_strlit("s");
        reveal_strlit("m");
        reveal_strlit("h");
        reveal_strlit("d");
        reveal_strlit("w");
    }
    if ts <= 0 {
        let mut r = String::new();
        r.push('—');
        assert(r@ =~= seq!['—']);
        return Some(r);
    }
    let delta: i64 = if now - ts > 0 {
        now - ts
    } else {
        0
    };
    let m = delta / 60;
    let h = m / 60;
    let d = h / 24;
    let w = d / 7;
    let (n, unit) = if delta < 60 {
        (delta, "s")
    } else if m < 60 {
        (m, "m")
    } else if h < 48 {
        (h, "h")
    } else if d < 14 {
        (d, "d")
    } else if w < 8 {
        (w, "w")
    } else {
        return None;
    };
    let mut r = i64_to_string(n);
    push_str(&mut r, unit);
    Some(r)
}

/// How recently a session was used, for the color of its age.
#[derive(Clone, Copy, Debug, PartialEq, Eq, Structural)]
pub enum AgeBand {
    /// Unknown, or more than a week ago.
    Stale,
    /// Within the hour.
    Fresh,
    /// Within the day.
    Today,
    /// Within the week.
    ThisWeek,
}

/// The band of a time's age.
pub open spec fn age_band_spec(ts: i64, now: i64) -> AgeBand {
    if ts <= 0 {
        AgeBand::Stale
    } else {
        let delta = if now - ts > 0 { now - ts } else { 0 };
        if delta < 3600 {
            AgeBand::Fresh
        } else if delta < 86400 {
            AgeBand::Today
        } else if delta < 604800 {
            AgeBand::ThisWeek
        } else {
            AgeBand::Stale
        }
    }
}

/// The band of `ts`'s age at `now`.
pub fn age_band(ts: i64, now: i64) -> (r: AgeBand)
    requires
        now >= 0,
    ensures
        r == age_band_spec(ts, now),
{
    if ts <= 0 {
        return AgeBand::Stale;
    }
    let delta: i64 = if now - ts > 0 {
        now - ts
    } else {
        0
    };
    if delta < 3600 {
        AgeBand::Fresh
    } else if delta < 86400 {
        AgeBand::Today
    } else if delta < 604800 {
        AgeBand::ThisWeek
    } else {
        AgeBand::Stale
    }
}

} // verus!
