//! Character-level text operations with their mathematical meaning.
//!
//! Every text is viewed as a `Seq<char>`; the spec functions below say what the
//! usual string operations compute, and the executable functions are proved to
//! compute exactly that.
use vstd::prelude::*;

verus! {

pub assume_specification[ String::push ](s: &mut String, ch: char)
    ensures
        final(s)@ == old(s)@.push(ch),
;

// ---------------------------------------------------------------------------
// Specifications
// ---------------------------------------------------------------------------

/// Unicode `White_Space`, the property that `char::is_whitespace` tests.
pub open spec fn is_ws(c: char) -> bool {
    let n = c as u32;
    ||| (9 <= n && n <= 13)
    ||| n == 32
    ||| n == 0x85
    ||| n == 0xa0
    ||| n == 0x1680
    ||| (0x2000 <= n && n <= 0x200a)
    ||| n == 0x2028
    ||| n == 0x2029
    ||| n == 0x202f
    ||| n == 0x205f
    ||| n == 0x3000
}

/// `s` without its leading whitespace.
pub open spec fn trim_start(s: Seq<char>) -> Seq<char>
    decreases s.len(),
{
    if s.len() > 0 && is_ws(s[0]) {
        trim_start(s.drop_first())
    } else {
        s
    }
}

/// `s` without its trailing whitespace.
pub open spec fn trim_end(s: Seq<char>) -> Seq<char>
    decreases s.len(),
{
    if s.len() > 0 && is_ws(s.last()) {
        trim_end(s.drop_last())
    } else {
        s
    }
}

/// `s` without leading and trailing whitespace.
pub open spec fn trim(s: Seq<char>) -> Seq<char> {
    trim_end(trim_start(s))
}

/// The first position at or after `pos` that holds `c`, or `s.len()`.
pub open spec fn index_of_char_from(s: Seq<char>, c: char, pos: int) -> int
    decreases s.len() - pos,
{
    if pos < 0 || pos >= s.len() {
        s.len() as int
    } else if s[pos] == c {
        pos
    } else {
        index_of_char_from(s, c, pos + 1)
    }
}

/// The pieces of `s[pos..]` between occurrences of `c` (as `str::split` with a char).
pub open spec fn split_from(s: Seq<char>, c: char, pos: int) -> Seq<Seq<char>>
    decreases s.len() - pos,
{
    if pos < 0 || pos > s.len() {
        seq![]
    } else {
        let k = index_of_char_from(s, c, pos);
        if k >= s.len() || k < pos {
            seq![s.subrange(pos, s.len() as int)]
        } else {
            seq![s.subrange(pos, k)] + split_from(s, c, k + 1)
        }
    }
}

/// `str::split(c)`.
pub open spec fn split_char(s: Seq<char>, c: char) -> Seq<Seq<char>> {
    split_from(s, c, 0)
}

/// A line without the carriage return that ended it.
pub open spec fn strip_cr(s: Seq<char>) -> Seq<char> {
    if s.len() > 0 && s.last() == '\r' {
        s.drop_last()
    } else {
        s
    }
}

/// `str::lines`: pieces between `\n`, a `\r` before the `\n` dropped, and no
/// empty piece after a final `\n`.
pub open spec fn lines(s: Seq<char>) -> Seq<Seq<char>> {
    if s.len() == 0 {
        seq![]
    } else {
        let parts = split_char(s, '\n');
        let n = parts.len() as int;
        let m = if parts[n - 1].len() == 0 {
            n - 1
        } else {
            n
        };
        Seq::new(
            m as nat,
            |i: int|
                if i < n - 1 {
                    strip_cr(parts[i])
                } else {
                    parts[i]
                },
        )
    }
}

/// The parts joined with `sep` between consecutive parts.
pub open spec fn join(parts: Seq<Seq<char>>, sep: Seq<char>) -> Seq<char>
    decreases parts.len(),
{
    if parts.len() == 0 {
        seq![]
    } else if parts.len() == 1 {
        parts[0]
    } else {
        join(parts.drop_last(), sep) + sep + parts.last()
    }
}

/// The first position at or after `pos` holding whitespace, or `s.len()`.
pub open spec fn index_of_ws_from(s: Seq<char>, pos: int) -> int
    decreases s.len() - pos,
{
    if pos < 0 || pos >= s.len() {
        s.len() as int
    } else if is_ws(s[pos]) {
        pos
    } else {
        index_of_ws_from(s, pos + 1)
    }
}

/// The first position at or after `pos` holding a non-whitespace char, or `s.len()`.
pub open spec fn index_of_non_ws_from(s: Seq<char>, pos: int) -> int
    decreases s.len() - pos,
{
    if pos < 0 || pos >= s.len() {
        s.len() as int
    } else if !is_ws(s[pos]) {
        pos
    } else {
        index_of_non_ws_from(s, pos + 1)
    }
}

/// The maximal runs of non-whitespace in `s[pos..]` (as `str::split_whitespace`).
pub open spec fn words_from(s: Seq<char>, pos: int) -> Seq<Seq<char>>
    decreases s.len() - pos,
{
    let a = index_of_non_ws_from(s, pos);
    if pos < 0 || a >= s.len() || a < pos {
        seq![]
    } else {
        let b = index_of_ws_from(s, a);
        if b <= a || b > s.len() {
            seq![]
        } else {
            seq![s.subrange(a, b)] + words_from(s, b)
        }
    }
}

/// `str::split_whitespace`.
pub open spec fn words(s: Seq<char>) -> Seq<Seq<char>> {
    words_from(s, 0)
}

/// Whitespace runs collapsed to single spaces, ends trimmed.
pub open spec fn collapse_ws(s: Seq<char>) -> Seq<char> {
    join(words(s), seq![' '])
}

/// `p` occurs in `s` at position `i`.
pub open spec fn matches_at(s: Seq<char>, p: Seq<char>, i: int) -> bool {
    0 <= i && i + p.len() <= s.len() && s.subrange(i, i + p.len()) == p
}

/// The first position at or after `pos` where `p` occurs in `s`.
pub open spec fn find_from(s: Seq<char>, p: Seq<char>, pos: int) -> Option<int>
    decreases s.len() + 1 - pos,
{
    if pos < 0 || pos + p.len() > s.len() {
        None
    } else if matches_at(s, p, pos) {
        Some(pos)
    } else {
        find_from(s, p, pos + 1)
    }
}

/// `str::find` with a string pattern, as a char position.
pub open spec fn find(s: Seq<char>, p: Seq<char>) -> Option<int> {
    find_from(s, p, 0)
}

/// `str::contains` with a string pattern.
pub open spec fn contains(s: Seq<char>, p: Seq<char>) -> bool {
    find(s, p) is Some
}

/// `str::starts_with`.
pub open spec fn starts_with(s: Seq<char>, p: Seq<char>) -> bool {
    p.len() <= s.len() && s.take(p.len() as int) == p
}

/// `str::ends_with`.
pub open spec fn ends_with(s: Seq<char>, p: Seq<char>) -> bool {
    p.len() <= s.len() && s.skip(s.len() - p.len()) == p
}

/// `str::replace(from, to)` applied to `s[pos..]`, for a non-empty `from`.
pub open spec fn replace_from(s: Seq<char>, from: Seq<char>, to: Seq<char>, pos: int) -> Seq<
    char,
>
    decreases s.len() + 1 - pos,
{
    if pos < 0 || pos > s.len() || from.len() == 0 {
        seq![]
    } else {
        match find_from(s, from, pos) {
            Some(i) => if i < pos || i + from.len() > s.len() {
                seq![]
            } else {
                s.subrange(pos, i) + to + replace_from(s, from, to, i + from.len())
            },
            None => s.subrange(pos, s.len() as int),
        }
    }
}

/// `str::replace(from, to)` for a non-empty `from`.
pub open spec fn replace(s: Seq<char>, from: Seq<char>, to: Seq<char>) -> Seq<char> {
    replace_from(s, from, to, 0)
}

/// `char::to_ascii_lowercase`.
pub open spec fn ascii_lower_char(c: char) -> char {
    if 'A' <= c && c <= 'Z' {
        ((c as u32) + 32) as char
    } else {
        c
    }
}

/// `str::to_ascii_lowercase`.
pub open spec fn ascii_lower(s: Seq<char>) -> Seq<char> {
    Seq::new(s.len(), |i: int| ascii_lower_char(s[i]))
}

/// The decimal digit for `d < 10`.
pub open spec fn digit_char(d: nat) -> char {
    ((d + 48) as u32) as char
}

/// The decimal representation of `n`, as `Display` prints it.
pub open spec fn decimal(n: nat) -> Seq<char>
    decreases n,
{
    if n < 10 {
        seq![digit_char(n)]
    } else {
        decimal(n / 10).push(digit_char(n % 10))
    }
}

/// The decimal representation of a signed integer, as `Display` prints it.
pub open spec fn decimal_int(n: int) -> Seq<char> {
    if n < 0 {
        seq!['-'] + decimal((-n) as nat)
    } else {
        decimal(n as nat)
    }
}

/// `n` in decimal, left-padded with zeros to at least `width` digits.
pub open spec fn zero_padded(n: nat, width: nat) -> Seq<char> {
    let d = decimal(n);
    if d.len() >= width {
        d
    } else {
        Seq::new((width - d.len()) as nat, |i: int| '0') + d
    }
}

/// A span `(a, b)` that lies within `cs`.
pub open spec fn span_ok(cs: Seq<char>, sp: (usize, usize)) -> bool {
    sp.0 <= sp.1 <= cs.len()
}

/// The texts that the spans mark in `cs`.
pub open spec fn span_views(cs: Seq<char>, sps: Seq<(usize, usize)>) -> Seq<Seq<char>> {
    Seq::new(sps.len(), |i: int| cs.subrange(sps[i].0 as int, sps[i].1 as int))
}

/// The views of a sequence of strings.
pub open spec fn views(v: Seq<String>) -> Seq<Seq<char>> {
    v.map_values(|x: String| x@)
}

// ---------------------------------------------------------------------------
// Lemmas
// ---------------------------------------------------------------------------

pub proof fn lemma_index_of_char_from(s: Seq<char>, c: char, pos: int)
    requires
        0 <= pos <= s.len(),
    ensures
        pos <= index_of_char_from(s, c, pos) <= s.len(),
        index_of_char_from(s, c, pos) < s.len() ==> s[index_of_char_from(s, c, pos)] == c,
        forall|j: int| pos <= j < index_of_char_from(s, c, pos) ==> s[j] != c,
    decreases s.len() - pos,
{
    if pos < s.len() && s[pos] != c {
        lemma_index_of_char_from(s, c, pos + 1);
    }
}

pub proof fn lemma_index_of_ws_from(s: Seq<char>, pos: int)
    requires
        0 <= pos <= s.len(),
    ensures
        pos <= index_of_ws_from(s, pos) <= s.len(),
        index_of_ws_from(s, pos) < s.len() ==> is_ws(s[index_of_ws_from(s, pos)]),
        forall|j: int| pos <= j < index_of_ws_from(s, pos) ==> !is_ws(s[j]),
    decreases s.len() - pos,
{
    if pos < s.len() && !is_ws(s[pos]) {
        lemma_index_of_ws_from(s, pos + 1);
    }
}

pub proof fn lemma_index_of_non_ws_from(s: Seq<char>, pos: int)
    requires
        0 <= pos <= s.len(),
    ensures
        pos <= index_of_non_ws_from(s, pos) <= s.len(),
        index_of_non_ws_from(s, pos) < s.len() ==> !is_ws(s[index_of_non_ws_from(s, pos)]),
        forall|j: int| pos <= j < index_of_non_ws_from(s, pos) ==> is_ws(s[j]),
    decreases s.len() - pos,
{
    if pos < s.len() && is_ws(s[pos]) {
        lemma_index_of_non_ws_from(s, pos + 1);
    }
}

pub proof fn lemma_find_from(s: Seq<char>, p: Seq<char>, pos: int)
    requires
        0 <= pos,
    ensures
        find_from(s, p, pos) matches Some(i) ==> pos <= i && matches_at(s, p, i) && forall|
            j: int,
        | pos <= j < i ==> !matches_at(s, p, j),
        find_from(s, p, pos) is None ==> forall|j: int| pos <= j ==> !matches_at(s, p, j),
    decreases s.len() + 1 - pos,
{
    if pos < 0 || pos + p.len() > s.len() {
    } else if matches_at(s, p, pos) {
    } else {
        lemma_find_from(s, p, pos + 1);
    }
}

proof fn lemma_ws_shift(p: Seq<char>, r: Seq<char>, i: int)
    requires
        0 <= i <= r.len(),
    ensures
        index_of_ws_from(p + r, p.len() + i) == p.len() + index_of_ws_from(r, i),
        index_of_non_ws_from(p + r, p.len() + i) == p.len() + index_of_non_ws_from(r, i),
    decreases r.len() - i,
{
    if i < r.len() {
        assert((p + r)[p.len() + i] == r[i]);
        lemma_ws_shift(p, r, i + 1);
    }
}

proof fn lemma_words_shift(p: Seq<char>, r: Seq<char>, i: int)
    requires
        0 <= i <= r.len(),
    ensures
        words_from(p + r, p.len() + i) == words_from(r, i),
    decreases r.len() - i,
{
    let s = p + r;
    lemma_ws_shift(p, r, i);
    lemma_index_of_non_ws_from(r, i);
    let a = index_of_non_ws_from(r, i);
    if a < r.len() {
        lemma_ws_shift(p, r, a);
        lemma_index_of_ws_from(r, a);
        let b = index_of_ws_from(r, a);
        if b > a {
            assert(s.subrange(p.len() + a, p.len() + b) =~= r.subrange(a, b));
            lemma_words_shift(p, r, b);
        }
    }
}

/// The words of `s` from `pos` on are not empty and hold no whitespace.
proof fn lemma_words_are_words(s: Seq<char>, pos: int)
    requires
        0 <= pos <= s.len(),
    ensures
        forall|k: int|
            0 <= k < words_from(s, pos).len() ==> #[trigger] words_from(s, pos)[k].len() > 0
                && forall|j: int|
                0 <= j < words_from(s, pos)[k].len() ==> !is_ws(words_from(s, pos)[k][j]),
    decreases s.len() - pos,
{
    lemma_index_of_non_ws_from(s, pos);
    let a = index_of_non_ws_from(s, pos);
    if a < s.len() {
        lemma_index_of_ws_from(s, a);
        let b = index_of_ws_from(s, a);
        if b > a {
            lemma_words_are_words(s, b);
            let w = words_from(s, pos);
            let rest = words_from(s, b);
            assert(w == seq![s.subrange(a, b)] + rest);
            assert forall|k: int| 0 <= k < w.len() implies #[trigger] w[k].len() > 0 && forall|j: int|
                0 <= j < w[k].len() ==> !is_ws(w[k][j]) by {
                if k == 0 {
                    assert(w[0] == s.subrange(a, b));
                    assert forall|j: int| 0 <= j < w[0].len() implies !is_ws(w[0][j]) by {
                        assert(w[0][j] == s[a + j]);
                    }
                } else {
                    assert(w[k] == rest[k - 1]);
                }
            }
        }
    }
}

proof fn lemma_join_front(ws: Seq<Seq<char>>, sep: Seq<char>)
    requires
        ws.len() >= 2,
    ensures
        join(ws, sep) == ws[0] + sep + join(ws.drop_first(), sep),
    decreases ws.len(),
{
    let dl = ws.drop_last();
    let df = ws.drop_first();
    assert(join(ws, sep) == join(dl, sep) + sep + ws.last());
    if ws.len() == 2 {
        assert(join(dl, sep) == dl[0]);
        assert(join(df, sep) == df[0]);
        assert(dl[0] == ws[0]);
        assert(df[0] == ws.last());
    } else {
        lemma_join_front(dl, sep);
        assert(dl.drop_first() =~= df.drop_last());
        assert(df.last() == ws.last());
        assert(dl[0] == ws[0]);
        assert(join(df, sep) == join(df.drop_last(), sep) + sep + df.last());
        let j = join(df.drop_last(), sep);
        assert(ws[0] + sep + j + sep + ws.last() =~= ws[0] + sep + (j + sep + ws.last()));
    }
}

/// Joining words (not empty, no whitespace) with single spaces and splitting
/// the result at whitespace gives the words back.
proof fn lemma_words_of_join(ws: Seq<Seq<char>>)
    requires
        forall|k: int|
            0 <= k < ws.len() ==> #[trigger] ws[k].len() > 0 && forall|j: int|
                0 <= j < ws[k].len() ==> !is_ws(ws[k][j]),
    ensures
        words(join(ws, seq![' '])) == ws,
    decreases ws.len(),
{
    let sp = seq![' '];
    assert(is_ws(' '));
    if ws.len() == 0 {
        assert(words(Seq::<char>::empty()) == Seq::<Seq<char>>::empty());
    } else {
        let w = ws[0];
        assert(w.len() > 0);
        let s = join(ws, sp);
        let rest: Seq<char> = if ws.len() == 1 {
            seq![]
        } else {
            sp + join(ws.drop_first(), sp)
        };
        if ws.len() >= 2 {
            lemma_join_front(ws, sp);
        }
        assert(s =~= w + rest);
        assert(!is_ws(s[0]));
        assert(index_of_non_ws_from(s, 0) == 0);
        lemma_index_of_ws_from(s, 0);
        let b = index_of_ws_from(s, 0);
        if b < w.len() {
            assert(s[b] == w[b]);
        }
        if b > w.len() {
            assert(s[w.len() as int] == ' ');
        }
        assert(b == w.len());
        assert(s.subrange(0, b) =~= w);
        if ws.len() == 1 {
            assert(words_from(s, b) == Seq::<Seq<char>>::empty());
            assert(words(s) =~= ws);
        } else {
            let tail = ws.drop_first();
            assert forall|k: int| 0 <= k < tail.len() implies #[trigger] tail[k].len() > 0 && forall|j: int|
                0 <= j < tail[k].len() ==> !is_ws(tail[k][j]) by {
                assert(tail[k] == ws[k + 1]);
            }
            lemma_words_of_join(tail);
            let r = join(tail, sp);
            let p = w + sp;
            assert(s =~= p + r);
            assert(s[b] == ' ');
            lemma_index_of_non_ws_from(s, b + 1);
            assert(index_of_non_ws_from(s, b) == index_of_non_ws_from(s, b + 1));
            assert(words_from(s, b) == words_from(s, b + 1));
            lemma_words_shift(p, r, 0);
            assert(words_from(s, b + 1) == words(r));
            assert(words(s) =~= ws);
        }
    }
}

/// Whitespace in `r` stands only as a single space between two other
/// characters: none at either end, none doubled, none other than ' '.
pub open spec fn single_spaced(r: Seq<char>) -> bool {
    forall|i: int|
        0 <= i < r.len() && #[trigger] is_ws(r[i]) ==> r[i] == ' ' && 0 < i < r.len() - 1 && !is_ws(r[i - 1])
            && !is_ws(r[i + 1])
}

proof fn lemma_join_single_spaced(ws: Seq<Seq<char>>)
    requires
        forall|k: int|
            0 <= k < ws.len() ==> #[trigger] ws[k].len() > 0 && forall|j: int|
                0 <= j < ws[k].len() ==> !is_ws(ws[k][j]),
    ensures
        single_spaced(join(ws, seq![' '])),
        ws.len() > 0 ==> join(ws, seq![' ']).len() > 0,
    decreases ws.len(),
{
    let sp = seq![' '];
    if ws.len() == 1 {
        let w = ws[0];
        assert(join(ws, sp) == w);
        assert forall|i: int| 0 <= i < w.len() && #[trigger] is_ws(w[i]) implies false by {}
    } else if ws.len() >= 2 {
        let dl = ws.drop_last();
        assert forall|k: int| 0 <= k < dl.len() implies #[trigger] dl[k].len() > 0 && forall|j: int|
            0 <= j < dl[k].len() ==> !is_ws(dl[k][j]) by {
            assert(dl[k] == ws[k]);
        }
        lemma_join_single_spaced(dl);
        let j = join(dl, sp);
        let w = ws.last();
        assert(w == ws[ws.len() - 1]);
        let s = join(ws, sp);
        assert(s == j + sp + w);
        let n = j.len() as int;
        assert forall|i: int| 0 <= i < s.len() && #[trigger] is_ws(s[i]) implies s[i] == ' ' && 0 < i < s.len()
            - 1 && !is_ws(s[i - 1]) && !is_ws(s[i + 1]) by {
            if i < n {
                assert(s[i] == j[i]);
                assert(is_ws(j[i]));
                assert(s[i - 1] == j[i - 1]);
                assert(s[i + 1] == j[i + 1]);
            } else if i == n {
                assert(s[i] == ' ');
                assert(s[i - 1] == j[n - 1]);
                if is_ws(j[n - 1]) {
                    assert(false);
                }
                assert(s[i + 1] == w[0]);
            } else {
                assert(s[i] == w[i - n - 1]);
                assert(false);
            }
        }
    }
}

/// Collapsed text holds no whitespace at either end, and within it only a
/// single space between two words.
pub proof fn law_collapse_ws_single_spaced(s: Seq<char>)
    ensures
        single_spaced(collapse_ws(s)),
{
    lemma_words_are_words(s, 0);
    lemma_join_single_spaced(words(s));
}

/// Collapsing whitespace keeps the words, so collapsing twice changes
/// nothing.
pub proof fn law_collapse_ws_twice_changes_nothing(s: Seq<char>)
    ensures
        words(collapse_ws(s)) == words(s),
        collapse_ws(collapse_ws(s)) == collapse_ws(s),
{
    lemma_words_are_words(s, 0);
    lemma_words_of_join(words(s));
}

pub proof fn lemma_join_push(parts: Seq<Seq<char>>, sep: Seq<char>, x: Seq<char>)
    ensures
        join(parts.push(x), sep) == if parts.len() == 0 {
            x
        } else {
            join(parts, sep) + sep + x
        },
{
    assert(parts.push(x).drop_last() =~= parts);
}

// ---------------------------------------------------------------------------
// Executable operations
// ---------------------------------------------------------------------------

/// `char::is_whitespace`.
pub fn is_whitespace(c: char) -> (b: bool)
    ensures
        b == is_ws(c),
{
    let n = c as u32;
    (9 <= n && n <= 13) || n == 32 || n == 0x85 || n == 0xa0 || n == 0x1680 || (0x2000 <= n
        && n <= 0x200a) || n == 0x2028 || n == 0x2029 || n == 0x202f || n == 0x205f || n
        == 0x3000
}

/// The characters of `s`, in order.
pub fn chars_vec(s: &str) -> (v: Vec<char>)
    ensures
        v@ == s@,
{
    let mut v: Vec<char> = Vec::new();
    for c in it: s.chars()
        invariant
            it.seq() == s@,
            v@ == s@.take(it.index()),
    {
        v.push(c);
    }
    v
}

/// A string holding `cs[a..b]`.
pub fn string_of_range(cs: &[char], a: usize, b: usize) -> (s: String)
    requires
        a <= b <= cs@.len(),
    ensures
        s@ == cs@.subrange(a as int, b as int),
{
    let mut s = String::new();
    let mut i: usize = a;
    while i < b
        invariant
            a <= i <= b <= cs@.len(),
            s@ == cs@.subrange(a as int, i as int),
        decreases b - i,
    {
        s.push(cs[i]);
        i = i + 1;
        assert(s@ =~= cs@.subrange(a as int, i as int));
    }
    s
}

/// A string holding the characters of `cs`.
pub fn string_of(cs: &[char]) -> (s: String)
    ensures
        s@ == cs@,
{
    let s = string_of_range(cs, 0, cs.len());
    assert(cs@.subrange(0, cs@.len() as int) =~= cs@);
    s
}

/// Appends `t` to `s`.
pub fn push_str(s: &mut String, t: &str)
    ensures
        final(s)@ == old(s)@ + t@,
{
    s.append(t);
}

/// The number of chars of `s`.
pub fn char_count(s: &str) -> (n: usize)
    ensures
        n == s@.len(),
{
    let v = chars_vec(s);
    v.len()
}

/// `str::trim_start` on `cs[lo..hi]`: the first position of the trimmed text.
pub fn skip_ws(cs: &[char], lo: usize, hi: usize) -> (r: usize)
    requires
        lo <= hi <= cs@.len(),
    ensures
        lo <= r <= hi,
        cs@.subrange(r as int, hi as int) == trim_start(cs@.subrange(lo as int, hi as int)),
        forall|j: int| lo <= j < r ==> is_ws(cs@[j]),
        r < hi ==> !is_ws(cs@[r as int]),
{
    let mut i = lo;
    while i < hi && is_whitespace(cs[i])
        invariant
            lo <= i <= hi <= cs@.len(),
            trim_start(cs@.subrange(i as int, hi as int)) == trim_start(
                cs@.subrange(lo as int, hi as int),
            ),
            forall|j: int| lo <= j < i ==> is_ws(cs@[j]),
        decreases hi - i,
    {
        assert(cs@.subrange(i as int, hi as int).drop_first() =~= cs@.subrange(
            i + 1,
            hi as int,
        ));
        i = i + 1;
    }
    i
}

/// `str::trim_end` on `cs[lo..hi]`: the end position of the trimmed text.
pub fn skip_ws_back(cs: &[char], lo: usize, hi: usize) -> (r: usize)
    requires
        lo <= hi <= cs@.len(),
    ensures
        lo <= r <= hi,
        cs@.subrange(lo as int, r as int) == trim_end(cs@.subrange(lo as int, hi as int)),
        forall|j: int| r <= j < hi ==> is_ws(cs@[j]),
        r > lo ==> !is_ws(cs@[r - 1]),
{
    let mut i = hi;
    while i > lo && is_whitespace(cs[i - 1])
        invariant
            lo <= i <= hi <= cs@.len(),
            trim_end(cs@.subrange(lo as int, i as int)) == trim_end(
                cs@.subrange(lo as int, hi as int),
            ),
            forall|j: int| i <= j < hi ==> is_ws(cs@[j]),
        decreases i - lo,
    {
        assert(cs@.subrange(lo as int, i as int).drop_last() =~= cs@.subrange(
            lo as int,
            i - 1,
        ));
        i = i - 1;
    }
    i
}

/// `str::trim`.
pub fn trim_str(s: &str) -> (r: String)
    ensures
        r@ == trim(s@),
{
    let cs = chars_vec(s);
    let a = skip_ws(cs.as_slice(), 0, cs.len());
    let b = skip_ws_back(cs.as_slice(), a, cs.len());
    assert(cs@.subrange(0, cs@.len() as int) =~= cs@);
    string_of_range(cs.as_slice(), a, b)
}

/// `str::trim_start`.
pub fn trim_start_str(s: &str) -> (r: String)
    ensures
        r@ == trim_start(s@),
{
    let cs = chars_vec(s);
    let a = skip_ws(cs.as_slice(), 0, cs.len());
    assert(cs@.subrange(0, cs@.len() as int) =~= cs@);
    string_of_range(cs.as_slice(), a, cs.len())
}

/// `str::trim_end`.
pub fn trim_end_str(s: &str) -> (r: String)
    ensures
        r@ == trim_end(s@),
{
    let cs = chars_vec(s);
    let b = skip_ws_back(cs.as_slice(), 0, cs.len());
    assert(cs@.subrange(0, cs@.len() as int) =~= cs@);
    string_of_range(cs.as_slice(), 0, b)
}

/// Whether `trim(s)` is empty.
pub fn is_blank(s: &str) -> (b: bool)
    ensures
        b == (trim(s@).len() == 0),
{
    let t = trim_str(s);
    t.as_str().is_empty()
}

/// The first position at or after `pos` holding `c`, or `cs.len()`.
pub fn index_of_char(cs: &[char], c: char, pos: usize) -> (r: usize)
    requires
        pos <= cs@.len(),
    ensures
        r == index_of_char_from(cs@, c, pos as int),
{
    proof {
        lemma_index_of_char_from(cs@, c, pos as int);
    }
    let mut i = pos;
    while i < cs.len() && cs[i] != c
        invariant
            pos <= i <= cs@.len(),
            index_of_char_from(cs@, c, i as int) == index_of_char_from(cs@, c, pos as int),
        decreases cs.len() - i,
    {
        i = i + 1;
    }
    i
}

/// The spans of `str::split(c)` on `cs`.
pub fn split_spans(cs: &[char], c: char) -> (r: Vec<(usize, usize)>)
    ensures
        forall|i: int| 0 <= i < r@.len() ==> span_ok(cs@, #[trigger] r@[i]),
        span_views(cs@, r@) == split_char(cs@, c),
{
    let mut r: Vec<(usize, usize)> = Vec::new();
    let mut pos: usize = 0;
    loop
        invariant
            pos <= cs@.len(),
            split_char(cs@, c) == span_views(cs@, r@) + split_from(cs@, c, pos as int),
            forall|i: int| 0 <= i < r@.len() ==> span_ok(cs@, #[trigger] r@[i]),
        decreases cs@.len() - pos,
    {
        let k = index_of_char(cs, c, pos);
        proof {
            lemma_index_of_char_from(cs@, c, pos as int);
        }
        let ghost old_r = r@;
        if k >= cs.len() {
            r.push((pos, cs.len()));
            assert(split_from(cs@, c, pos as int) == seq![
                cs@.subrange(pos as int, cs@.len() as int),
            ]);
            assert(span_views(cs@, r@) =~= span_views(cs@, old_r).push(
                cs@.subrange(pos as int, cs@.len() as int),
            ));
            assert(split_char(cs@, c) =~= span_views(cs@, r@));
            return r;
        }
        r.push((pos, k));
        assert(split_from(cs@, c, pos as int) == seq![cs@.subrange(pos as int, k as int)]
            + split_from(cs@, c, k + 1));
        assert(span_views(cs@, r@) =~= span_views(cs@, old_r).push(
            cs@.subrange(pos as int, k as int),
        ));
        assert(split_char(cs@, c) =~= span_views(cs@, r@) + split_from(cs@, c, k + 1));
        pos = k + 1;
    }
}

/// Strings holding the texts that the spans mark in `cs`.
pub fn strings_of_spans(cs: &[char], spans: &Vec<(usize, usize)>) -> (r: Vec<String>)
    requires
        forall|i: int| 0 <= i < spans@.len() ==> span_ok(cs@, #[trigger] spans@[i]),
    ensures
        views(r@) == span_views(cs@, spans@),
{
    let mut r: Vec<String> = Vec::new();
    let mut i: usize = 0;
    while i < spans.len()
        invariant
            forall|k: int| 0 <= k < spans@.len() ==> span_ok(cs@, #[trigger] spans@[k]),
            i <= spans@.len(),
            views(r@) == span_views(cs@, spans@).take(i as int),
        decreases spans.len() - i,
    {
        let (a, b) = spans[i];
        assert(span_ok(cs@, spans@[i as int]));
        let piece = string_of_range(cs, a, b);
        let ghost old_r = r@;
        r.push(piece);
        assert(views(r@) =~= views(old_r).push(piece@));
        i = i + 1;
        assert(views(r@) =~= span_views(cs@, spans@).take(i as int));
    }
    assert(span_views(cs@, spans@).take(i as int) =~= span_views(cs@, spans@));
    r
}

/// `str::split(c)`.
pub fn split_char_str(s: &str, c: char) -> (r: Vec<String>)
    ensures
        views(r@) == split_char(s@, c),
{
    let cs = chars_vec(s);
    let spans = split_spans(cs.as_slice(), c);
    strings_of_spans(cs.as_slice(), &spans)
}

proof fn lemma_split_nonempty(s: Seq<char>, c: char, pos: int)
    requires
        0 <= pos <= s.len(),
    ensures
        split_from(s, c, pos).len() >= 1,
    decreases s.len() - pos,
{
    lemma_index_of_char_from(s, c, pos);
    let k = index_of_char_from(s, c, pos);
    if k < s.len() {
        lemma_split_nonempty(s, c, k + 1);
    }
}

/// `str::split` always yields at least one piece.
pub proof fn lemma_split_char_nonempty(s: Seq<char>, c: char)
    ensures
        split_char(s, c).len() >= 1,
{
    lemma_split_nonempty(s, c, 0);
}

/// A line without its final carriage return.
fn strip_cr_string(s: String) -> (r: String)
    ensures
        r@ == strip_cr(s@),
{
    let cs = chars_vec(s.as_str());
    if cs.len() > 0 && cs[cs.len() - 1] == '\r' {
        let r = string_of_range(cs.as_slice(), 0, cs.len() - 1);
        assert(r@ =~= s@.drop_last());
        r
    } else {
        s
    }
}

/// `str::lines`.
pub fn lines_of(s: &str) -> (r: Vec<String>)
    ensures
        views(r@) == lines(s@),
{
    if s.is_empty() {
        let r: Vec<String> = Vec::new();
        assert(views(r@) =~= lines(s@));
        return r;
    }
    let parts = split_char_str(s, '\n');
    proof {
        lemma_split_nonempty(s@, '\n', 0);
    }
    let n = parts.len();
    let m = if parts[n - 1].as_str().is_empty() {
        n - 1
    } else {
        n
    };
    let ghost target = lines(s@);
    assert(target.len() == m);
    let mut r: Vec<String> = Vec::new();
    let mut i: usize = 0;
    while i < m
        invariant
            views(parts@) == split_char(s@, '\n'),
            n == parts@.len(),
            m <= n,
            target == lines(s@),
            target.len() == m,
            i <= m,
            views(r@) == target.take(i as int),
        decreases m - i,
    {
        let p = parts[i].clone();
        assert(p@ == split_char(s@, '\n')[i as int]);
        let q = if i + 1 < n {
            strip_cr_string(p)
        } else {
            p
        };
        let ghost old_r = r@;
        r.push(q);
        assert(views(r@) =~= views(old_r).push(q@));
        i = i + 1;
        assert(views(r@) =~= target.take(i as int));
    }
    assert(target.take(m as int) =~= target);
    r
}

/// The parts joined with `sep`.
pub fn join_strings(parts: &Vec<String>, sep: &str) -> (r: String)
    ensures
        r@ == join(views(parts@), sep@),
{
    let mut r = String::new();
    let mut i: usize = 0;
    while i < parts.len()
        invariant
            i <= parts@.len(),
            r@ == join(views(parts@).take(i as int), sep@),
        decreases parts.len() - i,
    {
        proof {
            lemma_join_push(views(parts@).take(i as int), sep@, parts@[i as int]@);
            assert(views(parts@).take(i + 1) =~= views(parts@).take(i as int).push(
                parts@[i as int]@,
            ));
        }
        if i > 0 {
            r.append(sep);
        }
        r.append(parts[i].as_str());
        i = i + 1;
    }
    assert(views(parts@).take(i as int) =~= views(parts@));
    r
}

/// The spans of `str::split_whitespace` on `cs`.
pub fn word_spans(cs: &[char]) -> (r: Vec<(usize, usize)>)
    ensures
        forall|i: int| 0 <= i < r@.len() ==> span_ok(cs@, #[trigger] r@[i]),
        span_views(cs@, r@) == words(cs@),
{
    let mut r: Vec<(usize, usize)> = Vec::new();
    let mut pos: usize = 0;
    loop
        invariant
            pos <= cs@.len(),
            words(cs@) == span_views(cs@, r@) + words_from(cs@, pos as int),
            forall|i: int| 0 <= i < r@.len() ==> span_ok(cs@, #[trigger] r@[i]),
        decreases cs@.len() - pos,
    {
        let mut a = pos;
        while a < cs.len() && is_whitespace(cs[a])
            invariant
                pos <= a <= cs@.len(),
                index_of_non_ws_from(cs@, a as int) == index_of_non_ws_from(cs@, pos as int),
            decreases cs.len() - a,
        {
            a = a + 1;
        }
        if a >= cs.len() {
            assert(words_from(cs@, pos as int) == Seq::<Seq<char>>::empty());
            assert(words(cs@) =~= span_views(cs@, r@));
            return r;
        }
        let mut b = a;
        while b < cs.len() && !is_whitespace(cs[b])
            invariant
                a <= b <= cs@.len(),
                index_of_ws_from(cs@, b as int) == index_of_ws_from(cs@, a as int),
            decreases cs.len() - b,
        {
            b = b + 1;
        }
        let ghost old_r = r@;
        proof {
            lemma_index_of_non_ws_from(cs@, a as int);
            assert(b > a);
            assert(words_from(cs@, pos as int) == seq![cs@.subrange(a as int, b as int)]
                + words_from(cs@, b as int));
        }
        r.push((a, b));
        assert(span_views(cs@, r@) =~= span_views(cs@, old_r).push(
            cs@.subrange(a as int, b as int),
        ));
        assert(words(cs@) =~= span_views(cs@, r@) + words_from(cs@, b as int));
        pos = b;
    }
}

/// `str::split_whitespace`.
pub fn words_of(s: &str) -> (r: Vec<String>)
    ensures
        views(r@) == words(s@),
{
    let cs = chars_vec(s);
    let spans = word_spans(cs.as_slice());
    strings_of_spans(cs.as_slice(), &spans)
}

/// Whether `p` occurs in `cs` at `i`.
pub fn matches_at_exec(cs: &[char], p: &[char], i: usize) -> (b: bool)
    ensures
        b == matches_at(cs@, p@, i as int),
{
    let n = cs.len();
    if i > n || p.len() > n - i {
        return false;
    }
    let mut k: usize = 0;
    while k < p.len()
        invariant
            n == cs@.len(),
            i + p@.len() <= n,
            k <= p@.len(),
            forall|j: int| 0 <= j < k ==> cs@[i + j] == p@[j],
        decreases p.len() - k,
    {
        if cs[i + k] != p[k] {
            assert(cs@.subrange(i as int, i + p@.len())[k as int] != p@[k as int]);
            return false;
        }
        k = k + 1;
    }
    assert(cs@.subrange(i as int, i + p@.len()) =~= p@);
    true
}

/// The first position at or after `pos` where `p` occurs in `cs`.
pub fn find_from_exec(cs: &[char], p: &[char], pos: usize) -> (r: Option<usize>)
    ensures
        r matches Some(i) ==> find_from(cs@, p@, pos as int) == Some(i as int),
        r is None ==> find_from(cs@, p@, pos as int) is None,
{
    let mut i = pos;
    while i <= cs.len() && p.len() <= cs.len() - i
        invariant
            pos <= i,
            find_from(cs@, p@, i as int) == find_from(cs@, p@, pos as int),
        decreases cs.len() + 1 - i,
    {
        if matches_at_exec(cs, p, i) {
            return Some(i);
        }
        if i == cs.len() {
            assert(find_from(cs@, p@, i + 1) is None);
            return None;
        }
        i = i + 1;
    }
    None
}

/// `str::find` as a char position.
pub fn find_str(s: &str, p: &str) -> (r: Option<usize>)
    ensures
        r matches Some(i) ==> find(s@, p@) == Some(i as int),
        r is None ==> find(s@, p@) is None,
{
    let cs = chars_vec(s);
    let ps = chars_vec(p);
    find_from_exec(cs.as_slice(), ps.as_slice(), 0)
}

/// `str::contains` with a string pattern.
pub fn contains_str(s: &str, p: &str) -> (b: bool)
    ensures
        b == contains(s@, p@),
{
    find_str(s, p).is_some()
}

/// `str::starts_with` with a string pattern.
pub fn starts_with_str(s: &str, p: &str) -> (b: bool)
    ensures
        b == starts_with(s@, p@),
{
    let cs = chars_vec(s);
    let ps = chars_vec(p);
    let b = matches_at_exec(cs.as_slice(), ps.as_slice(), 0);
    assert(b == starts_with(s@, p@)) by {
        if p@.len() <= s@.len() {
            assert(s@.subrange(0, p@.len() as int) =~= s@.take(p@.len() as int));
        }
    }
    b
}

/// `str::ends_with` with a string pattern.
pub fn ends_with_str(s: &str, p: &str) -> (b: bool)
    ensures
        b == ends_with(s@, p@),
{
    let cs = chars_vec(s);
    let ps = chars_vec(p);
    if ps.len() > cs.len() {
        return false;
    }
    let b = matches_at_exec(cs.as_slice(), ps.as_slice(), cs.len() - ps.len());
    assert(b == ends_with(s@, p@)) by {
        assert(s@.subrange(s@.len() - p@.len(), s@.len() as int) =~= s@.skip(
            s@.len() - p@.len(),
        ));
    }
    b
}

/// `str::replace(from, to)` for a non-empty `from`.
pub fn replace_str(s: &str, from: &str, to: &str) -> (r: String)
    requires
        from@.len() > 0,
    ensures
        r@ == replace(s@, from@, to@),
{
    let cs = chars_vec(s);
    let fs = chars_vec(from);
    let mut out = String::new();
    let mut pos: usize = 0;
    loop
        invariant
            cs@ == s@,
            fs@ == from@,
            fs@.len() > 0,
            pos <= cs@.len(),
            replace(s@, from@, to@) == out@ + replace_from(s@, from@, to@, pos as int),
        decreases cs@.len() + 1 - pos,
    {
        let found = find_from_exec(cs.as_slice(), fs.as_slice(), pos);
        proof {
            lemma_find_from(cs@, fs@, pos as int);
        }
        match found {
            None => {
                let rest = string_of_range(cs.as_slice(), pos, cs.len());
                out.append(rest.as_str());
                assert(out@ =~= replace(s@, from@, to@));
                return out;
            },
            Some(i) => {
                assert(matches_at(cs@, fs@, i as int));
                let piece = string_of_range(cs.as_slice(), pos, i);
                let ghost before = out@;
                out.append(piece.as_str());
                out.append(to);
                assert(replace_from(s@, from@, to@, pos as int) == s@.subrange(pos as int, i as int)
                    + to@ + replace_from(s@, from@, to@, i + from@.len()));
                assert(replace(s@, from@, to@) =~= out@ + replace_from(
                    s@,
                    from@,
                    to@,
                    i + from@.len(),
                ));
                let step = fs.len();
                assert(i + step <= cs.len());
                pos = i + step;
            },
        }
    }
}

/// `char::to_ascii_lowercase`.
pub fn ascii_lower_char_exec(c: char) -> (r: char)
    ensures
        r == ascii_lower_char(c),
{
    if 'A' <= c && c <= 'Z' {
        let n = (c as u32) + 32;
        let r = n as u8 as char;
        r
    } else {
        c
    }
}

/// `str::to_ascii_lowercase`.
pub fn ascii_lower_str(s: &str) -> (r: String)
    ensures
        r@ == ascii_lower(s@),
{
    let cs = chars_vec(s);
    let mut r = String::new();
    let mut i: usize = 0;
    while i < cs.len()
        invariant
            cs@ == s@,
            i <= cs@.len(),
            r@ == ascii_lower(s@).take(i as int),
        decreases cs.len() - i,
    {
        r.push(ascii_lower_char_exec(cs[i]));
        i = i + 1;
        assert(r@ =~= ascii_lower(s@).take(i as int));
    }
    assert(ascii_lower(s@).take(i as int) =~= ascii_lower(s@));
    r
}

/// Appends the decimal digits of `n`.
pub fn push_decimal(out: &mut String, n: u64)
    ensures
        final(out)@ == old(out)@ + decimal(n as nat),
    decreases n,
{
    if n >= 10 {
        push_decimal(out, n / 10);
    }
    let d = (n % 10) as u8;
    let c = (d + 48) as char;
    assert(c == digit_char((n % 10) as nat));
    out.push(c);
    assert(out@ =~= old(out)@ + decimal(n as nat));
}

/// `n.to_string()` for an unsigned integer.
pub fn u64_to_string(n: u64) -> (s: String)
    ensures
        s@ == decimal(n as nat),
{
    let mut s = String::new();
    push_decimal(&mut s, n);
    assert(s@ =~= decimal(n as nat));
    s
}

/// `n.to_string()` for a signed integer.
pub fn i64_to_string(n: i64) -> (s: String)
    ensures
        s@ == decimal_int(n as int),
{
    let mut s = String::new();
    if n < 0 {
        s.push('-');
        let m: u64 = (-(n as i128)) as u64;
        push_decimal(&mut s, m);
    } else {
        push_decimal(&mut s, n as u64);
    }
    assert(s@ =~= decimal_int(n as int));
    s
}

/// `format!("{:0w$}", n)`.
pub fn zero_padded_string(n: u64, width: usize) -> (s: String)
    ensures
        s@ == zero_padded(n as nat, width as nat),
{
    let d = u64_to_string(n);
    let len = char_count(d.as_str());
    if len >= width {
        return d;
    }
    let mut s = String::new();
    let mut i: usize = 0;
    while i < width - len
        invariant
            len == d@.len(),
            len < width,
            i <= width - len,
            s@ == Seq::new(i as nat, |k: int| '0'),
        decreases width - len - i,
    {
        s.push('0');
        i = i + 1;
        assert(s@ =~= Seq::new(i as nat, |k: int| '0'));
    }
    s.append(d.as_str());
    s
}

// ---------------------------------------------------------------------------
// Order
// ---------------------------------------------------------------------------

/// Text order by code point.
pub open spec fn text_le(a: Seq<char>, b: Seq<char>) -> bool
    decreases a.len(),
{
    if a.len() == 0 {
        true
    } else if b.len() == 0 {
        false
    } else if a[0] != b[0] {
        a[0] < b[0]
    } else {
        text_le(a.drop_first(), b.drop_first())
    }
}

/// `text_le` on the tails after `i`.
pub proof fn lemma_text_le_step(a: Seq<char>, b: Seq<char>, i: int)
    requires
        0 <= i < a.len(),
        i < b.len(),
        a[i] == b[i],
    ensures
        text_le(a.skip(i), b.skip(i)) == text_le(a.skip(i + 1), b.skip(i + 1)),
{
    assert(a.skip(i).drop_first() =~= a.skip(i + 1));
    assert(b.skip(i).drop_first() =~= b.skip(i + 1));
}

/// Whether `a` comes before `b` or equals it, by code point.
pub fn text_le_exec(a: &str, b: &str) -> (r: bool)
    ensures
        r == text_le(a@, b@),
{
    let ac = crate::text::chars_vec(a);
    let bc = crate::text::chars_vec(b);
    let mut i: usize = 0;
    assert(a@.skip(0) =~= a@);
    assert(b@.skip(0) =~= b@);
    loop
        invariant
            ac@ == a@,
            bc@ == b@,
            i <= ac@.len(),
            i <= bc@.len(),
            text_le(a@, b@) == text_le(a@.skip(i as int), b@.skip(i as int)),
        decreases ac@.len() - i,
    {
        if i == ac.len() {
            return true;
        }
        if i == bc.len() {
            return false;
        }
        if ac[i] != bc[i] {
            return ac[i] < bc[i];
        }
        proof {
            lemma_text_le_step(a@, b@, i as int);
        }
        i = i + 1;
    }
}


/// Every text comes before or equals itself.
pub proof fn lemma_text_le_reflexive(a: Seq<char>)
    ensures
        text_le(a, a),
    decreases a.len(),
{
    if a.len() > 0 {
        lemma_text_le_reflexive(a.drop_first());
    }
}

/// `text_le` orders any two texts.
pub proof fn lemma_text_le_total(a: Seq<char>, b: Seq<char>)
    ensures
        text_le(a, b) || text_le(b, a),
    decreases a.len(),
{
    if a.len() > 0 && b.len() > 0 {
        if a[0] == b[0] {
            lemma_text_le_total(a.drop_first(), b.drop_first());
        }
    }
}

/// Texts that each come before the other are equal.
pub proof fn lemma_text_le_antisymmetric(a: Seq<char>, b: Seq<char>)
    requires
        text_le(a, b),
        text_le(b, a),
    ensures
        a == b,
    decreases a.len(),
{
    if a.len() > 0 && b.len() > 0 {
        lemma_text_le_antisymmetric(a.drop_first(), b.drop_first());
        assert(a =~= seq![a[0]] + a.drop_first());
        assert(b =~= seq![b[0]] + b.drop_first());
    } else {
        assert(a =~= b);
    }
}

/// `text_le` is transitive.
pub proof fn lemma_text_le_transitive(a: Seq<char>, b: Seq<char>, c: Seq<char>)
    requires
        text_le(a, b),
        text_le(b, c),
    ensures
        text_le(a, c),
    decreases a.len(),
{
    if a.len() > 0 && b.len() > 0 && c.len() > 0 && a[0] == b[0] && b[0] == c[0] {
        lemma_text_le_transitive(a.drop_first(), b.drop_first(), c.drop_first());
    }
}

/// What `str::to_uppercase` gives for a text: its uppercase equivalent under
/// Unicode's case mapping.
pub uninterp spec fn spec_to_uppercase(s: Seq<char>) -> Seq<char>;

/// What `str::to_lowercase` gives for a text: its lowercase equivalent under
/// Unicode's case mapping.
pub uninterp spec fn spec_to_lowercase(s: Seq<char>) -> Seq<char>;

/// `str::to_uppercase`. Claims only that the result is the one named by
/// `spec_to_uppercase` for the text.
#[verifier::external_body]
pub(crate) fn to_uppercase_str(s: &str) -> (r: String)
    ensures
        r@ == spec_to_uppercase(s@),
{
    s.to_uppercase()
}

/// `str::to_lowercase`. Claims only that the result is the one named by
/// `spec_to_lowercase` for the text.
#[verifier::external_body]
pub(crate) fn to_lowercase_str(s: &str) -> (r: String)
    ensures
        r@ == spec_to_lowercase(s@),
{
    s.to_lowercase()
}

} // verus!
