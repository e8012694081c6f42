//! Finding a session's rollout and opening its transcript: what a catalog line
//! says, which scanned rollout wins, where to search, and the header lines.
use vstd::prelude::*;

use crate::exporter::markdown::{rel_candidates, rollout_rel_candidates};
use crate::exporter::values::{value_as_string, value_string};
use crate::exporter::{mode_name, ExportMode};
use crate::json::{jbool, jget, jget_str, jget_str_or, parse_json, spec_parse_json, text_eq, Json, JsonValue};
use crate::text::{
    ascii_lower, ascii_lower_str, contains, contains_str, ends_with, ends_with_str, is_blank,
    push_str, starts_with, starts_with_str, text_le, text_le_exec, trim, views,
    lemma_text_le_total, lemma_text_le_transitive,
};

verus! {

broadcast use vstd::std_specs::vec::group_vec_axioms;

// ---------------------------------------------------------------------------
// Catalog lines
// ---------------------------------------------------------------------------

/// What a catalog line says of the session that is looked up.
pub enum CatalogEntry {
    /// The line is blank, is not JSON, or is about another session.
    Skip,
    /// The session cannot be exported; the message says why.
    Refused(String),
    /// Where the rollout may be, relative to the code directory or absolute.
    Candidates(Vec<String>),
}

/// The mathematical form of a catalog entry.
pub enum CatalogView {
    Skip,
    Refused(Seq<char>),
    Candidates(Seq<Seq<char>>),
}

impl View for CatalogEntry {
    type V = CatalogView;

    open spec fn view(&self) -> CatalogView {
        match self {
            CatalogEntry::Skip => CatalogView::Skip,
            CatalogEntry::Refused(m) => CatalogView::Refused(m@),
            CatalogEntry::Candidates(c) => CatalogView::Candidates(views(c@)),
        }
    }
}

/// A boolean field, `false` when absent or not a boolean.
pub open spec fn jget_bool_or_false(j: Json, key: Seq<char>) -> bool {
    match jget(j, key) {
        Some(v) => jbool(v) == Some(true),
        None => false,
    }
}

/// What a parsed catalog record says of session `session_id`.
pub open spec fn catalog_record_spec(rec: Json, session_id: Seq<char>) -> CatalogView {
    if jget_str_or(rec, "session_id"@, Seq::empty()) != session_id {
        CatalogView::Skip
    } else if jget_bool_or_false(rec, "deleted"@) {
        CatalogView::Refused("Session "@ + session_id + " is marked deleted in catalog"@)
    } else {
        match jget_str(rec, "rollout_path"@) {
            Some(rel) => CatalogView::Candidates(rel_candidates(rel)),
            None => CatalogView::Refused(
                "Session "@ + session_id + " missing rollout_path in catalog"@,
            ),
        }
    }
}

/// What a catalog line says of session `session_id`: blank lines and lines
/// that are not JSON are skipped.
pub open spec fn catalog_line_spec(line: Seq<char>, session_id: Seq<char>) -> CatalogView {
    if trim(line).len() == 0 {
        CatalogView::Skip
    } else {
        match spec_parse_json(line) {
            Ok(rec) => catalog_record_spec(rec, session_id),
            Err(_) => CatalogView::Skip,
        }
    }
}

/// What a parsed catalog record says of session `session_id`.
pub fn catalog_record(record: &JsonValue, session_id: &str) -> (r: CatalogEntry)
    ensures
        r@ == catalog_record_spec(record@, session_id@),
{
    proof {
        reveal_strlit("");
        assert(""@ =~= Seq::<char>::empty());
    }
    let sid = match record.get("session_id") {
        Some(v) => match v.as_str() {
            Some(s) => s,
            None => "",
        },
        None => "",
    };
    if !text_eq(sid, session_id) {
        return CatalogEntry::Skip;
    }
    let deleted = match record.get("deleted") {
        Some(v) => match v.as_bool() {
            Some(b) => b,
            None => false,
        },
        None => false,
    };
    if deleted {
        let mut m = String::from_str("Session ");
        push_str(&mut m, session_id);
        push_str(&mut m, " is marked deleted in catalog");
        return CatalogEntry::Refused(m);
    }
    let rel = match record.get("rollout_path") {
        Some(v) => v.as_str(),
        None => None,
    };
    match rel {
        Some(rel) => CatalogEntry::Candidates(rollout_rel_candidates(rel)),
        None => {
            let mut m = String::from_str("Session ");
            push_str(&mut m, session_id);
            push_str(&mut m, " missing rollout_path in catalog");
            CatalogEntry::Refused(m)
        },
    }
}

/// What a catalog line says of session `session_id`.
pub fn catalog_entry(line: &str, session_id: &str) -> (r: CatalogEntry)
    ensures
        r@ == catalog_line_spec(line@, session_id@),
{
    if is_blank(line) {
        return CatalogEntry::Skip;
    }
    match parse_json(line) {
        Ok(rec) => catalog_record(&rec, session_id),
        Err(_) => CatalogEntry::Skip,
    }
}

// ---------------------------------------------------------------------------
// Looking a session up in the catalogs
// ---------------------------------------------------------------------------

/// Where a catalog may be, relative to the code directory, in the order tried.
pub fn catalog_locations() -> (r: Vec<String>)
    ensures
        views(r@) == seq!["sessions/index/catalog.jsonl"@, "index/catalog.jsonl"@, "catalog.jsonl"@],
{
    let mut r: Vec<String> = Vec::new();
    r.push(String::from_str("sessions/index/catalog.jsonl"));
    r.push(String::from_str("index/catalog.jsonl"));
    r.push(String::from_str("catalog.jsonl"));
    assert(views(r@) =~= seq!["sessions/index/catalog.jsonl"@, "index/catalog.jsonl"@, "catalog.jsonl"@]);
    r
}

/// What a rollout path of a catalog is taken against.
#[derive(Clone, Copy, Debug, PartialEq, Eq, Structural)]
pub enum RolloutBase {
    /// The path as it is, without looking whether it exists.
    AsGiven,
    /// The code directory.
    CodeDir,
    /// The code directory's parent (the code directory when it has none).
    CodeDirParent,
    /// The code directory's `sessions` directory.
    SessionsDir,
}

/// The places a catalog's rollout path may name, in the order tried: an
/// absolute path as it is; a relative one under the code directory, its
/// parent, and its `sessions` directory.
pub open spec fn rollout_bases_spec(absolute: bool) -> Seq<RolloutBase> {
    if absolute {
        seq![RolloutBase::AsGiven]
    } else {
        seq![RolloutBase::CodeDir, RolloutBase::CodeDirParent, RolloutBase::SessionsDir]
    }
}

/// The places a catalog's rollout path may name (see `rollout_bases_spec`).
pub fn rollout_bases(absolute: bool) -> (r: Vec<RolloutBase>)
    ensures
        r@ == rollout_bases_spec(absolute),
{
    let mut r: Vec<RolloutBase> = Vec::new();
    if absolute {
        r.push(RolloutBase::AsGiven);
    } else {
        r.push(RolloutBase::CodeDir);
        r.push(RolloutBase::CodeDirParent);
        r.push(RolloutBase::SessionsDir);
    }
    assert(r@ =~= rollout_bases_spec(absolute));
    r
}

/// One thing the catalogs say of the session looked up, in order: a refusal,
/// or a rollout path to try.
pub enum CatalogHit {
    Refused(Seq<char>),
    Rel(Seq<char>),
}

/// What one catalog line says of session `sid`.
pub open spec fn line_hits(line: Seq<char>, sid: Seq<char>) -> Seq<CatalogHit> {
    match catalog_line_spec(line, sid) {
        CatalogView::Skip => seq![],
        CatalogView::Refused(m) => seq![CatalogHit::Refused(m)],
        CatalogView::Candidates(rels) => rels.map_values(|r: Seq<char>| CatalogHit::Rel(r)),
    }
}

/// What the catalog lines say of session `sid`, in order.
pub open spec fn catalog_hits(lines: Seq<Seq<char>>, sid: Seq<char>) -> Seq<CatalogHit>
    decreases lines.len(),
{
    if lines.len() == 0 {
        seq![]
    } else {
        catalog_hits(lines.drop_last(), sid) + line_hits(lines.last(), sid)
    }
}

/// A rollout path that `resolve` found nothing for.
pub open spec fn unresolved<R: Fn(&String) -> Option<String>>(resolve: R, h: CatalogHit) -> bool {
    h matches CatalogHit::Rel(rel) && exists|s: String| s@ == rel && #[trigger] call_ensures(resolve, (&s,), None::<String>)
}

/// The lookup stopped at hit `k`: every hit before it was a rollout path
/// that `resolve` found nothing for; at `k`, a refusal gives its message, a
/// rollout path the place `resolve` found for it; past the last hit, nothing.
pub open spec fn catalog_outcome<R: Fn(&String) -> Option<String>>(
    resolve: R,
    hits: Seq<CatalogHit>,
    k: int,
    r: Result<Option<String>, String>,
) -> bool {
    &&& 0 <= k <= hits.len()
    &&& forall|j: int| 0 <= j < k ==> #[trigger] unresolved(resolve, hits[j])
    &&& if k == hits.len() {
        r matches Ok(None)
    } else {
        match hits[k] {
            CatalogHit::Refused(m) => r matches Err(e) && e@ == m,
            CatalogHit::Rel(rel) => r matches Ok(Some(p)) && exists|s: String|
                s@ == rel && #[trigger] call_ensures(resolve, (&s,), Some(p)),
        }
    }
}

proof fn lemma_hits_prefix(lines: Seq<Seq<char>>, sid: Seq<char>, a: int)
    requires
        0 <= a <= lines.len(),
    ensures
        exists|rest: Seq<CatalogHit>| #[trigger] (catalog_hits(lines.take(a), sid) + rest) == catalog_hits(lines, sid),
    decreases lines.len(),
{
    if a == lines.len() {
        assert(lines.take(a) =~= lines);
        assert(catalog_hits(lines.take(a), sid) + seq![] =~= catalog_hits(lines, sid));
    } else {
        let d = lines.drop_last();
        lemma_hits_prefix(d, sid, a);
        assert(d.take(a) =~= lines.take(a));
        let rest = choose|rest: Seq<CatalogHit>| #[trigger] (catalog_hits(d.take(a), sid) + rest) == catalog_hits(d, sid);
        let h = line_hits(lines.last(), sid);
        assert(catalog_hits(lines.take(a), sid) + (rest + h) =~= catalog_hits(lines, sid));
    }
}

/// Looks session `session_id` up in catalog lines (those of every catalog
/// found, in the order of `catalog_locations`): the first refusal gives its
/// message, the first rollout path `resolve` finds a place for gives that
/// place, and nothing found gives `Ok(None)` (see `catalog_outcome`).
pub fn rollout_from_catalog_lines<R: Fn(&String) -> Option<String>>(
    lines: &Vec<String>,
    session_id: &str,
    resolve: R,
) -> (r: Result<Option<String>, String>)
    requires
        forall|t: &String| #[trigger] resolve.requires((t,)),
    ensures
        exists|k: int| #[trigger] catalog_outcome(resolve, catalog_hits(views(lines@), session_id@), k, r),
{
    let ghost ls = views(lines@);
    let ghost all = catalog_hits(ls, session_id@);
    let mut i: usize = 0;
    while i < lines.len()
        invariant
            i <= lines@.len(),
            ls == views(lines@),
            all == catalog_hits(ls, session_id@),
            forall|t: &String| #[trigger] resolve.requires((t,)),
            forall|j: int|
                0 <= j < catalog_hits(ls.take(i as int), session_id@).len() ==> #[trigger] unresolved(
                    resolve,
                    catalog_hits(ls.take(i as int), session_id@)[j],
                ),
        decreases lines.len() - i,
    {
        let ghost before = catalog_hits(ls.take(i as int), session_id@);
        assert(ls.take(i as int + 1).drop_last() =~= ls.take(i as int));
        assert(ls.take(i as int + 1).last() == lines@[i as int]@);
        let ghost now = catalog_hits(ls.take(i as int + 1), session_id@);
        assert(now == before + line_hits(lines@[i as int]@, session_id@));
        proof {
            lemma_hits_prefix(ls, session_id@, i as int + 1);
        }
        let ghost rest = choose|rest: Seq<CatalogHit>| #[trigger] (catalog_hits(ls.take(i as int + 1), session_id@) + rest) == catalog_hits(ls, session_id@);
        assert(all == now + rest);
        match catalog_entry(lines[i].as_str(), session_id) {
            CatalogEntry::Skip => {
                assert(now =~= before);
            },
            CatalogEntry::Refused(m) => {
                let ghost k = before.len() as int;
                assert(all[k] == CatalogHit::Refused(m@));
                assert forall|j: int| 0 <= j < k implies #[trigger] unresolved(resolve, all[j]) by {
                    assert(all[j] == before[j]);
                }
                let r: Result<Option<String>, String> = Err(m);
                assert(catalog_outcome(resolve, all, k, r));
                return r;
            },
            CatalogEntry::Candidates(rels) => {
                let ghost rv = views(rels@);
                let mut t: usize = 0;
                while t < rels.len()
                    invariant
                        t <= rels@.len(),
                        rv == views(rels@),
                        ls == views(lines@),
                        all == catalog_hits(ls, session_id@),
                        all == now + rest,
                        now == before + rv.map_values(|r: Seq<char>| CatalogHit::Rel(r)),
                        forall|t2: &String| #[trigger] resolve.requires((t2,)),
                        forall|j: int| 0 <= j < before.len() ==> #[trigger] unresolved(resolve, before[j]),
                        forall|j: int| 0 <= j < t ==> #[trigger] unresolved(resolve, CatalogHit::Rel(rv[j])),
                    decreases rels.len() - t,
                {
                    let found = resolve(&rels[t]);
                    let ghost k = before.len() + t;
                    assert(all[k] == CatalogHit::Rel(rels@[t as int]@));
                    match found {
                        Some(p) => {
                            assert forall|j: int| 0 <= j < k implies #[trigger] unresolved(resolve, all[j]) by {
                                if j < before.len() {
                                    assert(all[j] == before[j]);
                                } else {
                                    assert(all[j] == CatalogHit::Rel(rv[j - before.len()]));
                                }
                            }
                            let r: Result<Option<String>, String> = Ok(Some(p));
                            assert(call_ensures(resolve, (&rels@[t as int],), Some(p)));
                            assert(catalog_outcome(resolve, all, k, r));
                            return r;
                        },
                        None => {
                            assert(call_ensures(resolve, (&rels@[t as int],), None::<String>));
                            assert(unresolved(resolve, CatalogHit::Rel(rv[t as int])));
                        },
                    }
                    t = t + 1;
                }
                assert forall|j: int| 0 <= j < now.len() implies #[trigger] unresolved(resolve, now[j]) by {
                    if j < before.len() {
                        assert(now[j] == before[j]);
                    } else {
                        assert(now[j] == CatalogHit::Rel(rv[j - before.len()]));
                    }
                }
            },
        }
        i = i + 1;
    }
    assert(ls.take(lines@.len() as int) =~= ls);
    let r: Result<Option<String>, String> = Ok(None);
    assert(catalog_outcome(resolve, all, all.len() as int, r));
    r
}

/// Where the rollout of a session is: the catalog's answer when it has one or
/// refuses, else the scan's match, else an error that names the session and
/// the code directory.
pub fn rollout_path_for_session(
    catalog: Result<Option<String>, String>,
    scan: Option<String>,
    session_id: &str,
    code_dir: &str,
) -> (r: Result<String, String>)
    ensures
        match catalog {
            Err(e) => r == Err::<String, String>(e),
            Ok(Some(p)) => r == Ok::<String, String>(p),
            Ok(None) => match scan {
                Some(p) => r == Ok::<String, String>(p),
                None => r matches Err(e) && e@ == "Session not found: "@ + session_id@
                    + " (searched catalog and rollout files under "@ + code_dir@ + ")"@,
            },
        },
{
    match catalog {
        Err(e) => Err(e),
        Ok(Some(p)) => Ok(p),
        Ok(None) => match scan {
            Some(p) => Ok(p),
            None => {
                let mut m = String::from_str("Session not found: ");
                push_str(&mut m, session_id);
                push_str(&mut m, " (searched catalog and rollout files under ");
                push_str(&mut m, code_dir);
                push_str(&mut m, ")");
                Err(m)
            },
        },
    }
}

// ---------------------------------------------------------------------------
// Scanned rollouts
// ---------------------------------------------------------------------------

/// A rollout file's name: `rollout-…​.jsonl`.
pub open spec fn rollout_file_name(name: Seq<char>) -> bool {
    starts_with(name, "rollout-"@) && ends_with(name, ".jsonl"@)
}

/// Whether a file name is a rollout's.
pub fn is_rollout_file(name: &str) -> (r: bool)
    ensures
        r == rollout_file_name(name@),
{
    starts_with_str(name, "rollout-") && ends_with_str(name, ".jsonl")
}

/// Whether a file name is a rollout's whose name, in ASCII lower case, holds
/// `session_id_lc`.
pub fn is_rollout_match(name: &str, session_id_lc: &str) -> (r: bool)
    ensures
        r == (rollout_file_name(name@) && contains(ascii_lower(name@), session_id_lc@)),
{
    if !is_rollout_file(name) {
        return false;
    }
    let lc = ascii_lower_str(name);
    contains_str(lc.as_str(), session_id_lc)
}

/// The order of scanned rollouts: by recency key, then by path.
pub open spec fn key_le(a: (u128, Seq<char>), b: (u128, Seq<char>)) -> bool {
    a.0 < b.0 || (a.0 == b.0 && text_le(a.1, b.1))
}

/// The key by which a scanned rollout is ranked: the later it was modified the
/// higher (`age_nanos` is how long ago, when the file system tells), then its path.
pub fn rollout_sort_key(age_nanos: Option<u128>, path: &str) -> (r: (u128, String))
    ensures
        r.0 == match age_nanos {
            Some(a) => u128::MAX - a,
            None => 0,
        },
        r.1@ == path@,
{
    let k: u128 = match age_nanos {
        Some(a) => u128::MAX - a,
        None => 0,
    };
    (k, String::from_str(path))
}

/// The view of a keyed rollout.
pub open spec fn keyed_view(e: (u128, String)) -> (u128, Seq<char>) {
    (e.0, e.1@)
}

/// The rollout with the highest key among the scanned ones.
pub fn rollout_path_from_scan(keyed: &Vec<(u128, String)>) -> (r: Option<String>)
    ensures
        r is None <==> keyed@.len() == 0,
        r matches Some(p) ==> exists|i: int|
            0 <= i < keyed@.len() && #[trigger] keyed@[i].1@ == p@ && forall|j: int|
                0 <= j < keyed@.len() ==> key_le(
                    keyed_view(#[trigger] keyed@[j]),
                    keyed_view(keyed@[i]),
                ),
{
    if keyed.len() == 0 {
        return None;
    }
    let mut best: usize = 0;
    let mut i: usize = 1;
    proof {
        crate::text::lemma_text_le_reflexive(keyed@[0].1@);
    }
    while i < keyed.len()
        invariant
            0 <= best < i <= keyed@.len(),
            forall|j: int|
                0 <= j < i ==> key_le(keyed_view(#[trigger] keyed@[j]), keyed_view(keyed@[best as int])),
        decreases keyed.len() - i,
    {
        let (k, ref p) = keyed[i];
        let (bk, ref bp) = keyed[best];
        let greater = k > bk || (k == bk && !text_le_exec(p.as_str(), bp.as_str()));
        if greater {
            proof {
                let nb = keyed_view(keyed@[i as int]);
                let ob = keyed_view(keyed@[best as int]);
                if k == bk {
                    lemma_text_le_total(ob.1, nb.1);
                }
                assert forall|j: int| 0 <= j <= i implies key_le(
                    keyed_view(#[trigger] keyed@[j]),
                    nb,
                ) by {
                    let e = keyed_view(keyed@[j]);
                    if j < i && e.0 == nb.0 && ob.0 == nb.0 {
                        lemma_text_le_transitive(e.1, ob.1, nb.1);
                    }
                    if j == i {
                        crate::text::lemma_text_le_reflexive(nb.1);
                    }
                }
            }
            best = i;
        } else {
            proof {
                let nb = keyed_view(keyed@[i as int]);
                let ob = keyed_view(keyed@[best as int]);
                assert(key_le(nb, ob));
            }
        }
        i = i + 1;
    }
    Some(keyed[best].1.clone())
}

// ---------------------------------------------------------------------------
// Search roots
// ---------------------------------------------------------------------------

/// The items of `s` whose key (the paired text) no earlier item has.
pub open spec fn dedupe_by_key(s: Seq<(Seq<char>, Seq<char>)>) -> Seq<Seq<char>>
    decreases s.len(),
{
    if s.len() == 0 {
        seq![]
    } else {
        let prev = dedupe_by_key(s.drop_last());
        if exists|j: int| 0 <= j < s.len() - 1 && #[trigger] s[j].1 == s.last().1 {
            prev
        } else {
            prev.push(s.last().0)
        }
    }
}

/// The items of `items` whose key in `keys` no earlier item has, in order.
pub fn dedupe_by_keys(items: Vec<String>, keys: &Vec<String>) -> (r: Vec<String>)
    requires
        items@.len() == keys@.len(),
    ensures
        views(r@) == dedupe_by_key(
            Seq::new(items@.len(), |i: int| (items@[i]@, keys@[i]@)),
        ),
{
    let ghost pairs = Seq::new(items@.len(), |i: int| (items@[i]@, keys@[i]@));
    let mut out: Vec<String> = Vec::new();
    let mut i: usize = 0;
    while i < items.len()
        invariant
            i <= items@.len(),
            items@.len() == keys@.len(),
            pairs == Seq::new(items@.len(), |i: int| (items@[i]@, keys@[i]@)),
            views(out@) == dedupe_by_key(pairs.take(i as int)),
        decreases items.len() - i,
    {
        let mut seen = false;
        let mut j: usize = 0;
        while j < i
            invariant
                j <= i < items@.len(),
                items@.len() == keys@.len(),
                seen <==> exists|k: int| 0 <= k < j && #[trigger] keys@[k]@ == keys@[i as int]@,
            decreases i - j,
        {
            if text_eq(keys[j].as_str(), keys[i].as_str()) {
                seen = true;
            }
            j = j + 1;
        }
        proof {
            let t = pairs.take(i + 1);
            assert(t.drop_last() =~= pairs.take(i as int));
            assert(t.last() == pairs[i as int]);
            if seen {
                let k = choose|k: int| 0 <= k < i && #[trigger] keys@[k]@ == keys@[i as int]@;
                assert(t[k].1 == t.last().1);
            } else {
                assert forall|k: int| 0 <= k < t.len() - 1 implies #[trigger] t[k].1 != t.last().1 by {
                    assert(t[k].1 == keys@[k]@);
                }
            }
        }
        if !seen {
            let ghost old_o = out@;
            out.push(items[i].clone());
            assert(views(out@) =~= views(old_o).push(items@[i as int]@));
        }
        i = i + 1;
    }
    assert(pairs.take(i as int) =~= pairs);
    out
}

/// The directories a scan searches, before duplicates are dropped: the code
/// directory's `sessions` child when it is a directory; the code directory
/// itself when it is named `sessions`; its parent when it is named `index`;
/// and the code directory when none of these applies.
pub open spec fn raw_search_roots(
    code_dir: Seq<char>,
    file_name: Option<Seq<char>>,
    parent: Option<Seq<char>>,
    sessions_child: Option<Seq<char>>,
) -> Seq<Seq<char>> {
    let a = match sessions_child {
        Some(c) => seq![c],
        None => seq![],
    };
    let b = match file_name {
        Some(n) => if ascii_lower(n) == "sessions"@ {
            a.push(code_dir)
        } else {
            a
        },
        None => a,
    };
    let c = match (file_name, parent) {
        (Some(n), Some(p)) => if ascii_lower(n) == "index"@ {
            b.push(p)
        } else {
            b
        },
        _ => b,
    };
    if c.len() == 0 {
        seq![code_dir]
    } else {
        c
    }
}

/// The directories a scan searches, before duplicates are dropped.
pub fn raw_roots_exec(
    code_dir: &str,
    file_name: Option<&str>,
    parent: Option<&str>,
    sessions_child: Option<&str>,
) -> (r: Vec<String>)
    ensures
        views(r@) == raw_search_roots(
            code_dir@,
            match file_name {
                Some(n) => Some(n@),
                None => None,
            },
            match parent {
                Some(p) => Some(p@),
                None => None,
            },
            match sessions_child {
                Some(c) => Some(c@),
                None => None,
            },
        ),
{
    let mut roots: Vec<String> = Vec::new();
    if let Some(c) = sessions_child {
        roots.push(String::from_str(c));
    }
    let lname = match file_name {
        Some(n) => Some(ascii_lower_str(n)),
        None => None,
    };
    let is_sessions = match &lname {
        Some(l) => text_eq(l.as_str(), "sessions"),
        None => false,
    };
    if is_sessions {
        roots.push(String::from_str(code_dir));
    }
    let is_index = match &lname {
        Some(l) => text_eq(l.as_str(), "index"),
        None => false,
    };
    if is_index {
        if let Some(p) = parent {
            roots.push(String::from_str(p));
        }
    }
    if roots.len() == 0 {
        roots.push(String::from_str(code_dir));
    }
    assert(views(roots@) =~= raw_search_roots(
        code_dir@,
        match file_name {
            Some(n) => Some(n@),
            None => None,
        },
        match parent {
            Some(p) => Some(p@),
            None => None,
        },
        match sessions_child {
            Some(c) => Some(c@),
            None => None,
        },
    ));
    roots
}

/// The roots paired with their ASCII-lowercase form, the key by which the
/// exporter drops duplicates.
pub open spec fn lower_keyed(s: Seq<Seq<char>>) -> Seq<(Seq<char>, Seq<char>)> {
    Seq::new(s.len(), |i: int| (s[i], ascii_lower(s[i])))
}

/// The directories the exporter's scan searches: the raw roots, each kept
/// once by its ASCII-lowercase form.
pub fn rollout_search_roots(
    code_dir: &str,
    file_name: Option<&str>,
    parent: Option<&str>,
    sessions_child: Option<&str>,
) -> (r: Vec<String>)
    ensures
        views(r@) == dedupe_by_key(
            lower_keyed(
                raw_search_roots(
                    code_dir@,
                    match file_name {
                        Some(n) => Some(n@),
                        None => None,
                    },
                    match parent {
                        Some(p) => Some(p@),
                        None => None,
                    },
                    match sessions_child {
                        Some(c) => Some(c@),
                        None => None,
                    },
                ),
            ),
        ),
{
    let roots = raw_roots_exec(code_dir, file_name, parent, sessions_child);
    let mut keys: Vec<String> = Vec::new();
    let mut i: usize = 0;
    while i < roots.len()
        invariant
            i <= roots@.len(),
            keys@.len() == i,
            forall|k: int| 0 <= k < i ==> #[trigger] keys@[k]@ == ascii_lower(roots@[k]@),
        decreases roots.len() - i,
    {
        keys.push(ascii_lower_str(roots[i].as_str()));
        i = i + 1;
    }
    let ghost rs = roots@;
    let r = dedupe_by_keys(roots, &keys);
    assert(Seq::new(rs.len(), |i: int| (rs[i]@, keys@[i]@)) =~= lower_keyed(views(rs)));
    r
}

// ---------------------------------------------------------------------------
// The header of a transcript
// ---------------------------------------------------------------------------

/// The line of session metadata for `key`, when the metadata has that field.
pub open spec fn meta_line(meta: Json, key: Seq<char>) -> Seq<char> {
    match jget(meta, key) {
        Some(v) => "- "@ + key + ": "@ + value_string(v) + "\n"@,
        None => Seq::empty(),
    }
}

/// The header of a transcript: title, session id, mode, export time, the
/// session's metadata when the rollout has it, and a rule.
pub open spec fn header_spec(
    session_id: Seq<char>,
    mode: ExportMode,
    exported_at: Seq<char>,
    meta: Option<Json>,
) -> Seq<char> {
    let top = "# Chat Transcript\n\n"@ + "Session ID: "@ + session_id + "\n\n"@ + "Export Mode: "@
        + mode_name(mode) + "\n"@ + "Exported At (UTC): "@ + exported_at + "\n\n"@;
    let metas = match meta {
        Some(m) => "Session Meta:\n"@ + meta_line(m, "timestamp"@) + meta_line(m, "cwd"@)
            + meta_line(m, "originator"@) + meta_line(m, "cli_version"@) + "\n"@,
        None => Seq::empty(),
    };
    top + metas + "---\n\n"@
}

/// Appends the metadata line for `key`.
fn push_meta_line(out: &mut String, meta: &JsonValue, key: &str)
    ensures
        final(out)@ == old(out)@ + meta_line(meta@, key@),
{
    match meta.get(key) {
        Some(v) => {
            push_str(out, "- ");
            push_str(out, key);
            push_str(out, ": ");
            let s = value_as_string(v);
            push_str(out, s.as_str());
            push_str(out, "\n");
        },
        None => {
            assert(old(out)@ + Seq::<char>::empty() =~= old(out)@);
        },
    }
}

/// The header of a transcript of session `session_id`, exported at
/// `exported_at`, with the session's metadata when the rollout has it.
pub fn render_header(
    session_id: &str,
    mode: ExportMode,
    exported_at: &str,
    meta: Option<&JsonValue>,
) -> (r: String)
    ensures
        r@ == header_spec(
            session_id@,
            mode,
            exported_at@,
            match meta {
                Some(m) => Some(m@),
                None => None,
            },
        ),
{
    let mut out = String::from_str("# Chat Transcript\n\n");
    push_str(&mut out, "Session ID: ");
    push_str(&mut out, session_id);
    push_str(&mut out, "\n\n");
    push_str(&mut out, "Export Mode: ");
    push_str(&mut out, mode.as_str());
    push_str(&mut out, "\n");
    push_str(&mut out, "Exported At (UTC): ");
    push_str(&mut out, exported_at);
    push_str(&mut out, "\n\n");
    let ghost top = out@;
    if let Some(m) = meta {
        push_str(&mut out, "Session Meta:\n");
        push_meta_line(&mut out, m, "timestamp");
        push_meta_line(&mut out, m, "cwd");
        push_meta_line(&mut out, m, "originator");
        push_meta_line(&mut out, m, "cli_version");
        push_str(&mut out, "\n");
    }
    push_str(&mut out, "---\n\n");
    proof {
        let mv = match meta {
            Some(m) => Some(m@),
            None => None,
        };
        let metas = match mv {
            Some(m) => "Session Meta:\n"@ + meta_line(m, "timestamp"@) + meta_line(m, "cwd"@)
                + meta_line(m, "originator"@) + meta_line(m, "cli_version"@) + "\n"@,
            None => Seq::<char>::empty(),
        };
        assert(out@ =~= top + metas + "---\n\n"@);
    }
    out
}

/// Whether a parsed rollout record is the session's metadata record.
pub open spec fn is_meta_record(rec: Json) -> bool {
    jget_str(rec, "type"@) == Some("session_meta"@)
}

/// The payload of the first line, from `i` on, that parses to a metadata
/// record (`None` inside when that record has no payload); lines that do not
/// parse are passed over.
pub open spec fn first_meta_from(lines: Seq<Seq<char>>, i: int) -> Option<Option<Json>>
    decreases lines.len() - i,
{
    if i < 0 || i >= lines.len() {
        None
    } else {
        match spec_parse_json(lines[i]) {
            Ok(rec) => if is_meta_record(rec) {
                Some(jget(rec, "payload"@))
            } else {
                first_meta_from(lines, i + 1)
            },
            Err(_) => first_meta_from(lines, i + 1),
        }
    }
}

/// Whether a parsed record is the session's metadata record.
pub fn is_session_meta(record: &JsonValue) -> (r: bool)
    ensures
        r == is_meta_record(record@),
{
    match record.get("type") {
        Some(v) => match v.as_str() {
            Some(t) => text_eq(t, "session_meta"),
            None => false,
        },
        None => false,
    }
}

/// The payload of a rollout's session metadata record, found in its lines.
pub fn first_session_meta(lines: &Vec<String>) -> (r: Option<JsonValue>)
    ensures
        match first_meta_from(views(lines@), 0) {
            Some(Some(p)) => r matches Some(v) && v@ == p,
            _ => r is None,
        },
{
    let mut i: usize = 0;
    while i < lines.len()
        invariant
            i <= lines@.len(),
            first_meta_from(views(lines@), 0) == first_meta_from(views(lines@), i as int),
        decreases lines.len() - i,
    {
        match parse_json(lines[i].as_str()) {
            Ok(rec) => {
                if is_session_meta(&rec) {
                    return match rec.get("payload") {
                        Some(p) => Some(p.deep_clone()),
                        None => None,
                    };
                }
            },
            Err(_) => {},
        }
        i = i + 1;
    }
    None
}

// ---------------------------------------------------------------------------
// Where the transcript goes
// ---------------------------------------------------------------------------

/// Whether an output path with this extension names a Markdown file: the
/// extension is `md` in any ASCII case.
pub fn names_markdown_file(extension: Option<&str>) -> (r: bool)
    ensures
        r == (extension matches Some(e) && ascii_lower(e@) == "md"@),
{
    match extension {
        Some(e) => {
            let l = ascii_lower_str(e);
            text_eq(l.as_str(), "md")
        },
        None => false,
    }
}

/// The transcript's file name in an output directory: the session id, then `.md`.
pub fn transcript_file_name(session_id: &str) -> (r: String)
    ensures
        r@ == session_id@ + ".md"@,
{
    let mut r = String::from_str(session_id);
    push_str(&mut r, ".md");
    r
}

} // verus!
