//! The Wallix selector of the interface: which menu entries to offer the
//! user, best first, when no entry could be chosen automatically.
use vstd::prelude::*;
use crate::resolve::{ResolvedServer, ResolvedView};
use crate::text::{
    ascii_lower_seq, ascii_lower_vec, chars_of, eq_ignore_ascii_case, eq_ignore_ascii_case_vec,
    spec_contains, spec_ends_with, trim_vec, trim_ws, views,
};
use crate::wallix::{
    EntryView, WallixMenuEntry, build_expected_targets, dedup_seq, entries_view,
    target_candidates,
};

verus! {

/// Whether an error message tells that the menu could not be matched
/// automatically (so that the user should choose).
pub open spec fn spec_matching_error(message: Seq<char>) -> bool {
    ||| spec_contains(message, "No menu entry found with target"@)
    ||| spec_contains(message, "No menu entry found for matching targets"@)
    ||| spec_contains(message, "No menu entry found for target"@)
    ||| spec_contains(message, "Multiple menu entries"@)
    ||| spec_contains(message, "wallix.group is not configured"@)
}

pub fn wallix_matching_error(message: &str) -> (r: bool)
    ensures
        r == spec_matching_error(message@),
{
    crate::text::str_contains(message, "No menu entry found with target")
        || crate::text::str_contains(message, "No menu entry found for matching targets")
        || crate::text::str_contains(message, "No menu entry found for target")
        || crate::text::str_contains(message, "Multiple menu entries")
        || crate::text::str_contains(message, "wallix.group is not configured")
}

/// The group of an entry is the configured one, or ends with `_` and the
/// configured one, ignoring ASCII case.
pub open spec fn spec_suffix_matches_ci(entry_group: Seq<char>, configured: Seq<char>) -> bool {
    let e = ascii_lower_seq(entry_group);
    let c = ascii_lower_seq(configured);
    e == c || spec_ends_with(e, seq!['_'] + c)
}

pub fn group_suffix_matches(entry_group: &str, configured_group: &str) -> (r: bool)
    ensures
        r == spec_suffix_matches_ci(entry_group@, configured_group@),
{
    let e = ascii_lower_vec(&chars_of(entry_group));
    let c = ascii_lower_vec(&chars_of(configured_group));
    let mut suffix: Vec<char> = Vec::new();
    suffix.push('_');
    let mut i: usize = 0;
    while i < c.len()
        invariant
            i <= c@.len(),
            suffix@ == seq!['_'] + c@.take(i as int),
        decreases c@.len() - i,
    {
        suffix.push(c[i]);
        i += 1;
        assert(suffix@ =~= seq!['_'] + c@.take(i as int));
    }
    assert(c@.take(i as int) =~= c@);
    crate::text::eq_seq(&e, &c) || crate::text::ends_with_seq(&e, &suffix)
}

/// Some expected target equals the entry's target, ignoring ASCII case.
pub open spec fn targets_entry(targets: Seq<Seq<char>>, target: Seq<char>) -> bool {
    exists|k: int| 0 <= k < targets.len() && eq_ignore_ascii_case(#[trigger] targets[k], target)
}

/// How well an entry suits a server: 10 for an expected target, then 4 for
/// its configured group (ignoring case) or else 2 for a group ending with it.
pub open spec fn spec_score(server: ResolvedView, targets: Seq<Seq<char>>, e: EntryView) -> u8 {
    let t: u8 = if targets_entry(targets, e.target) {
        10
    } else {
        0
    };
    let g: u8 = match server.wallix_group {
        Some(gr) => {
            let g2 = trim_ws(gr);
            if g2.len() > 0 {
                if eq_ignore_ascii_case(e.group, g2) {
                    4
                } else if spec_suffix_matches_ci(e.group, g2) {
                    2
                } else {
                    0
                }
            } else {
                0
            }
        },
        None => 0,
    };
    (t + g) as u8
}

fn targets_entry_exec(targets: &Vec<String>, target: &String) -> (r: bool)
    ensures
        r == targets_entry(views(targets@), target@),
{
    let tc = chars_of(target.as_str());
    let mut k: usize = 0;
    while k < targets.len()
        invariant
            k <= targets@.len(),
            tc@ == target@,
            forall|j: int| 0 <= j < k ==> !eq_ignore_ascii_case(#[trigger] views(targets@)[j], target@),
        decreases targets@.len() - k,
    {
        if eq_ignore_ascii_case_vec(&chars_of(targets[k].as_str()), &tc) {
            assert(eq_ignore_ascii_case(views(targets@)[k as int], target@));
            return true;
        }
        k += 1;
    }
    false
}

pub fn score_entry(server: &ResolvedServer, expected_targets: &Vec<String>, entry: &WallixMenuEntry) -> (r:
    u8)
    ensures
        r == spec_score(server@, views(expected_targets@), entry@),
{
    let mut score: u8 = 0;
    if targets_entry_exec(expected_targets, &entry.target) {
        score = 10;
    }
    match &server.wallix_group {
        Some(gr) => {
            let g2 = trim_vec(&chars_of(gr.as_str()));
            if g2.len() > 0 {
                if eq_ignore_ascii_case_vec(&chars_of(entry.group.as_str()), &g2) {
                    score = score + 4;
                } else {
                    let g2s = crate::text::string_from_chars(&g2);
                    if group_suffix_matches(entry.group.as_str(), g2s.as_str()) {
                        score = score + 2;
                    }
                }
            }
        },
        None => {},
    }
    score
}

// ─── Stable sort by decreasing score ─────────────────────────────────────────

/// `out` is `inp` reordered by the permutation `idx`, by decreasing score,
/// items of equal score in their original order.
pub open spec fn desc_sort_with<T>(out: Seq<(u8, T)>, inp: Seq<(u8, T)>, idx: Seq<int>) -> bool {
    &&& out.len() == inp.len()
    &&& idx.len() == inp.len()
    &&& forall|k: int| 0 <= k < idx.len() ==> 0 <= #[trigger] idx[k] < inp.len()
    &&& forall|k: int| 0 <= k < idx.len() ==> #[trigger] out[k] == inp[idx[k]]
    &&& forall|a: int, b: int| #![trigger idx[a], idx[b]] 0 <= a < b < idx.len() ==> idx[a] != idx[b]
    &&& forall|a: int, b: int| #![trigger out[a], out[b]] 0 <= a < b < out.len() ==> out[a].0 >= out[b].0
    &&& forall|a: int, b: int|
        #![trigger out[a], out[b]]
        0 <= a < b < out.len() && out[a].0 == out[b].0 ==> idx[a] < idx[b]
}

pub open spec fn is_desc_sort<T>(out: Seq<(u8, T)>, inp: Seq<(u8, T)>) -> bool {
    exists|idx: Seq<int>| desc_sort_with(out, inp, idx)
}

fn sort_by_score_desc<T>(v: Vec<(u8, T)>) -> (r: Vec<(u8, T)>)
    ensures
        is_desc_sort(r@, v@),
{
    let ghost inp = v@;
    let n = v.len();
    let mut rest = v;
    let mut out: Vec<(u8, T)> = Vec::new();
    let ghost mut idx: Seq<int> = seq![];
    let mut m: usize = 0;
    assert(inp.skip(0) =~= inp);
    while m < n
        invariant
            m <= n == inp.len(),
            rest@ == inp.skip(m as int),
            desc_sort_with(out@, inp.take(m as int), idx),
            forall|k: int| 0 <= k < idx.len() ==> #[trigger] idx[k] < m,
        decreases n - m,
    {
        let x = rest.remove(0);
        assert(x == inp[m as int]);
        assert(rest@ =~= inp.skip(m + 1));
        let xs = x.0;
        let mut pos: usize = 0;
        while pos < out.len() && out[pos].0 >= xs
            invariant
                pos <= out@.len(),
                xs == x.0,
                forall|k: int| 0 <= k < pos ==> #[trigger] out@[k].0 >= x.0,
            decreases out@.len() - pos,
        {
            pos += 1;
        }
        let ghost old_out = out@;
        let ghost old_idx = idx;
        let ghost prev = inp.take(m as int);
        out.insert(pos, x);
        proof {
            idx = old_idx.insert(pos as int, m as int);
            let cur = inp.take(m + 1);
            assert forall|k: int| 0 <= k < idx.len() implies #[trigger] out@[k] == cur[idx[k]] by {
                if k < pos {
                    assert(out@[k] == old_out[k]);
                    assert(idx[k] == old_idx[k]);
                    assert(old_out[k] == prev[old_idx[k]]);
                } else if k > pos {
                    assert(out@[k] == old_out[k - 1]);
                    assert(idx[k] == old_idx[k - 1]);
                    assert(old_out[k - 1] == prev[old_idx[k - 1]]);
                }
            }
            assert forall|k: int| 0 <= k < idx.len() implies 0 <= #[trigger] idx[k] < cur.len()
                && idx[k] < m + 1 by {
                if k < pos {
                    assert(idx[k] == old_idx[k]);
                } else if k > pos {
                    assert(idx[k] == old_idx[k - 1]);
                }
            }
            assert forall|a: int, b: int| #![trigger idx[a], idx[b]] 0 <= a < b < idx.len()
                implies idx[a] != idx[b] by {
                if a != pos && b != pos {
                    let oa = if a < pos { a } else { a - 1 };
                    let ob = if b < pos { b } else { b - 1 };
                    assert(idx[a] == old_idx[oa]);
                    assert(idx[b] == old_idx[ob]);
                    assert(old_idx[oa] != old_idx[ob]);
                } else if a == pos {
                    assert(idx[b] == old_idx[b - 1]);
                    assert(old_idx[b - 1] < m);
                } else {
                    assert(idx[a] == old_idx[a]);
                    assert(old_idx[a] < m);
                }
            }
            assert forall|a: int, b: int| #![trigger out@[a], out@[b]] 0 <= a < b < out@.len()
                implies out@[a].0 >= out@[b].0 && (out@[a].0 == out@[b].0 ==> idx[a] < idx[b]) by {
                if a != pos && b != pos {
                    let oa = if a < pos { a } else { a - 1 };
                    let ob = if b < pos { b } else { b - 1 };
                    assert(out@[a] == old_out[oa]);
                    assert(out@[b] == old_out[ob]);
                    assert(idx[a] == old_idx[oa]);
                    assert(idx[b] == old_idx[ob]);
                } else if b == pos {
                    assert(out@[a] == old_out[a]);
                    assert(idx[a] == old_idx[a]);
                    assert(old_idx[a] < m);
                } else {
                    assert(pos < old_out.len());
                    assert(old_out[pos as int].0 < x.0);
                    assert(out@[b] == old_out[b - 1]);
                    if b - 1 > pos {
                        assert(old_out[pos as int].0 >= old_out[b - 1].0);
                    }
                }
            }
            assert(desc_sort_with(out@, cur, idx));
        }
        m += 1;
    }
    assert(inp.take(n as int) =~= inp);
    out
}

// ─── The entries offered ─────────────────────────────────────────────────────

/// The entries that have one of the expected targets (ignoring case), in order.
pub open spec fn targeted_only(entries: Seq<EntryView>, targets: Seq<Seq<char>>) -> Seq<EntryView>
    decreases entries.len(),
{
    if entries.len() == 0 {
        seq![]
    } else {
        let r = targeted_only(entries.drop_last(), targets);
        if targets_entry(targets, entries.last().target) {
            r.push(entries.last())
        } else {
            r
        }
    }
}

pub open spec fn scored(server: ResolvedView, targets: Seq<Seq<char>>, es: Seq<EntryView>) -> Seq<
    (u8, EntryView),
> {
    es.map_values(|e: EntryView| (spec_score(server, targets, e), e))
}

pub open spec fn entries_of_pairs(s: Seq<(u8, EntryView)>) -> Seq<EntryView> {
    s.map_values(|p: (u8, EntryView)| p.1)
}

pub open spec fn pair_views(v: Seq<(u8, WallixMenuEntry)>) -> Seq<(u8, EntryView)> {
    v.map_values(|p: (u8, WallixMenuEntry)| (p.0, p.1@))
}

/// The entries to offer for a server: those with one of its expected
/// targets, or all of them when none has one; best score first.
pub open spec fn spec_targeted(server: ResolvedView, entries: Seq<EntryView>, r: Seq<EntryView>) -> bool {
    let targets = dedup_seq(target_candidates(server));
    let t = targeted_only(entries, targets);
    let pool = if t.len() > 0 {
        t
    } else {
        entries
    };
    exists|sorted: Seq<(u8, EntryView)>|
        is_desc_sort(sorted, scored(server, targets, pool)) && r == entries_of_pairs(sorted)
}

proof fn lemma_desc_sort_views(out: Seq<(u8, WallixMenuEntry)>, inp: Seq<(u8, WallixMenuEntry)>)
    requires
        is_desc_sort(out, inp),
    ensures
        is_desc_sort(pair_views(out), pair_views(inp)),
{
    let idx = choose|idx: Seq<int>| desc_sort_with(out, inp, idx);
    let po = pair_views(out);
    let pi = pair_views(inp);
    assert forall|k: int| 0 <= k < idx.len() implies #[trigger] po[k] == pi[idx[k]] by {
        assert(out[k] == inp[idx[k]]);
    }
    assert forall|a: int, b: int| #![trigger po[a], po[b]] 0 <= a < b < po.len() implies po[a].0
        >= po[b].0 && (po[a].0 == po[b].0 ==> idx[a] < idx[b]) by {
        assert(po[a].0 == out[a].0);
        assert(po[b].0 == out[b].0);
    }
    assert(desc_sort_with(po, pi, idx));
}

/// The menu entries to offer in the selector for `server`, best first.
pub fn targeted_wallix_entries(server: &ResolvedServer, entries: &Vec<WallixMenuEntry>) -> (r: Vec<
    WallixMenuEntry,
>)
    ensures
        spec_targeted(server@, entries_view(entries@), entries_view(r@)),
{
    let expected = build_expected_targets(server);
    let ghost targets = views(expected@);
    let ghost ev = entries_view(entries@);
    let mut pool: Vec<WallixMenuEntry> = Vec::new();
    let mut i: usize = 0;
    assert(entries_view(pool@) =~= Seq::<EntryView>::empty());
    while i < entries.len()
        invariant
            i <= entries@.len(),
            ev == entries_view(entries@),
            targets == views(expected@),
            entries_view(pool@) == targeted_only(ev.take(i as int), targets),
        decreases entries@.len() - i,
    {
        assert(ev.take(i + 1).drop_last() =~= ev.take(i as int));
        if targets_entry_exec(&expected, &entries[i].target) {
            let ghost before = entries_view(pool@);
            let e = entries[i].clone();
            pool.push(e);
            assert(entries_view(pool@) =~= before.push(ev[i as int]));
        }
        i += 1;
    }
    assert(ev.take(i as int) =~= ev);
    let ghost t = targeted_only(ev, targets);
    if pool.len() == 0 {
        let mut k: usize = 0;
        while k < entries.len()
            invariant
                k <= entries@.len(),
                ev == entries_view(entries@),
                entries_view(pool@) == ev.take(k as int),
            decreases entries@.len() - k,
        {
            let ghost before = entries_view(pool@);
            let e = entries[k].clone();
            pool.push(e);
            assert(entries_view(pool@) =~= before.push(ev[k as int]));
            k += 1;
            assert(entries_view(pool@) =~= ev.take(k as int));
        }
        assert(ev.take(k as int) =~= ev);
    }
    let ghost pv = entries_view(pool@);
    assert(pv == (if t.len() > 0 {
        t
    } else {
        ev
    }));
    let mut pairs: Vec<(u8, WallixMenuEntry)> = Vec::new();
    let n = pool.len();
    let mut rest = pool;
    let mut j: usize = 0;
    assert(pv.skip(0) =~= pv);
    while j < n
        invariant
            j <= n == pv.len(),
            entries_view(rest@) == pv.skip(j as int),
            rest@.len() == n - j,
            targets == views(expected@),
            pair_views(pairs@) == scored(server@, targets, pv.take(j as int)),
        decreases n - j,
    {
        assert(entries_view(rest@)[0] == rest@[0]@);
        assert(pv.skip(j as int)[0] == pv[j as int]);
        let ghost r0 = rest@;
        let e = rest.remove(0);
        assert(e@ == pv[j as int]);
        assert(rest@ =~= r0.drop_first());
        assert(entries_view(rest@) =~= entries_view(r0).drop_first());
        assert(pv.skip(j as int).drop_first() =~= pv.skip(j + 1));
        let s = score_entry(server, &expected, &e);
        let ghost before = pair_views(pairs@);
        pairs.push((s, e));
        assert(pair_views(pairs@) =~= before.push((s, pv[j as int])));
        j += 1;
        assert(scored(server@, targets, pv.take(j as int)) =~= scored(server@, targets, pv.take(
            j - 1,
        )).push((s, pv[j - 1])));
    }
    assert(pv.take(n as int) =~= pv);
    let ghost pairs_in = pairs@;
    let sorted = sort_by_score_desc(pairs);
    proof {
        lemma_desc_sort_views(sorted@, pairs_in);
    }
    let ghost sv = pair_views(sorted@);
    let mut result: Vec<WallixMenuEntry> = Vec::new();
    let m = sorted.len();
    let mut rest2 = sorted;
    let mut q: usize = 0;
    assert(sv.skip(0) =~= sv);
    while q < m
        invariant
            q <= m == sv.len(),
            pair_views(rest2@) == sv.skip(q as int),
            rest2@.len() == m - q,
            entries_view(result@) == entries_of_pairs(sv.take(q as int)),
        decreases m - q,
    {
        assert(pair_views(rest2@)[0] == (rest2@[0].0, rest2@[0].1@));
        assert(sv.skip(q as int)[0] == sv[q as int]);
        let ghost r0 = rest2@;
        let p = rest2.remove(0);
        assert(rest2@ =~= r0.drop_first());
        assert(pair_views(rest2@) =~= pair_views(r0).drop_first());
        assert(sv.skip(q as int).drop_first() =~= sv.skip(q + 1));
        assert((p.0, p.1@) == sv[q as int]);
        let ghost before = entries_view(result@);
        result.push(p.1);
        assert(entries_view(result@) =~= before.push(sv[q as int].1));
        assert(entries_of_pairs(sv.take(q + 1)) =~= entries_of_pairs(sv.take(q as int)).push(
            sv[q as int].1,
        ));
        q += 1;
        assert(entries_view(result@) =~= entries_of_pairs(sv.take(q as int)));
    }
    assert(sv.take(q as int) =~= sv);
    assert(pair_views(pairs_in) == scored(server@, targets, pv));
    assert(is_desc_sort(sv, scored(server@, targets, pv)));
    assert(targets == dedup_seq(target_candidates(server@)));
    assert(is_desc_sort(sv, scored(server@, targets, pv)) && entries_view(result@)
        == entries_of_pairs(sv));
    result
}

} // verus!
