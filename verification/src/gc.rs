//! Retention garbage collection.
//!
//! The keep-set is the union, over each tracked channel, of the artifact
//! paths listed under its most recent dates, plus the paths under the
//! single most recent date of every pinned version. The delete-set is
//! every file found under `dist/` that is not in the keep-set. The
//! application walks the disk and performs the deletions; the library
//! computes the partition.
use vstd::prelude::*;

use crate::history::later_count;
use crate::history::latest_dates_from_channel_history;
use crate::history::ChannelHistoryFile;
use crate::strutil::contains_view;
use crate::strutil::vec_contains_string;

verus! {

/// Finds the ledger entry of a date.
fn find_entry(h: &ChannelHistoryFile, d: &String) -> (r: Option<usize>)
    requires
        h.wf(),
    ensures
        r is Some <==> h.has_date(d@),
        r is Some ==> r->0 < h.versions@.len() && h.versions@[r->0 as int].0@ == d@ && h.lookup(d@)
            == h.versions@[r->0 as int].1.deep_view(),
{
    let mut i: usize = 0;
    while i < h.versions.len()
        invariant
            i <= h.versions@.len(),
            h.wf(),
            forall|k: int| 0 <= k < i ==> (#[trigger] h.versions@[k]).0@ != d@,
        decreases h.versions@.len() - i,
    {
        if h.versions[i].0.eq(d) {
            proof {
                let w = choose|k: int| 0 <= k < h.versions@.len() && (#[trigger] h.versions@[k]).0@
                    == d@;
                assert(w == i);
            }
            return Some(i);
        }
        i = i + 1;
    }
    None
}

/// Whether the first `n` of the given dates cover the path in the ledger.
pub open spec fn under_some_date(
    h: &ChannelHistoryFile,
    dates: Seq<String>,
    n: int,
    p: Seq<char>,
) -> bool {
    exists|k: int|
        0 <= k < n && h.has_date((#[trigger] dates[k])@) && h.lookup(dates[k]@).contains(p)
}

/// The union of the paths listed under the given dates: a path is in the
/// result exactly when some given date is in the ledger and lists it.
pub fn paths_under_dates(h: &ChannelHistoryFile, dates: &Vec<String>) -> (r: Vec<String>)
    requires
        h.wf(),
    ensures
        forall|p: Seq<char>|
            contains_view(r@, p) <==> under_some_date(h, dates@, dates@.len() as int, p),
{
    let mut out: Vec<String> = Vec::new();
    let mut i: usize = 0;
    while i < dates.len()
        invariant
            i <= dates@.len(),
            h.wf(),
            forall|p: Seq<char>| contains_view(out@, p) <==> under_some_date(h, dates@, i as int, p),
        decreases dates@.len() - i,
    {
        let ghost before = out@;
        match find_entry(h, &dates[i]) {
            Some(e) => {
                let mut j: usize = 0;
                let entry_len = h.versions[e].1.len();
                while j < entry_len
                    invariant
                        j <= entry_len,
                        h.wf(),
                        e < h.versions@.len(),
                        entry_len == h.versions@[e as int].1@.len(),
                        out@.len() >= before.len(),
                        forall|k: int| 0 <= k < before.len() ==> out@[k] == before[k],
                        forall|k: int|
                            before.len() <= k < out@.len()
                                ==> h.versions@[e as int].1.deep_view().contains(
                                (#[trigger] out@[k])@,
                            ),
                        forall|k: int|
                            0 <= k < j ==> contains_view(
                                out@,
                                (#[trigger] h.versions@[e as int].1@[k])@,
                            ),
                    decreases entry_len - j,
                {
                    let ghost mid = out@;
                    out.push(h.versions[e].1[j].clone());
                    proof {
                        assert(out@.last()@ == h.versions@[e as int].1.deep_view()[j as int]);
                        assert forall|k: int| 0 <= k < j + 1 implies contains_view(
                            out@,
                            (#[trigger] h.versions@[e as int].1@[k])@,
                        ) by {
                            if k < j {
                                let w = choose|w: int|
                                    0 <= w < mid.len() && (#[trigger] mid[w])@ == h.versions@[
                                    e as int].1@[k]@;
                                assert(out@[w]@ == h.versions@[e as int].1@[k]@);
                            } else {
                                assert(out@.last()@ == h.versions@[e as int].1@[k]@);
                            }
                        }
                    }
                    j = j + 1;
                }
                proof {
                    let d = dates@[i as int]@;
                    assert(h.has_date(d));
                    assert forall|p: Seq<char>| contains_view(out@, p) implies under_some_date(
                        h,
                        dates@,
                        i + 1,
                        p,
                    ) by {
                        let k = choose|k: int| 0 <= k < out@.len() && (#[trigger] out@[k])@ == p;
                        if k < before.len() {
                            assert(before[k]@ == p);
                            assert(contains_view(before, p));
                            let k1 = choose|k1: int|
                                0 <= k1 < i && h.has_date((#[trigger] dates@[k1])@) && h.lookup(
                                    dates@[k1]@,
                                ).contains(p);
                            assert(0 <= k1 < i + 1 && h.has_date(dates@[k1]@) && h.lookup(
                                dates@[k1]@,
                            ).contains(p));
                        } else {
                            assert(h.lookup(d).contains(p));
                            assert(0 <= i < i + 1 && h.has_date(dates@[i as int]@) && h.lookup(
                                dates@[i as int]@,
                            ).contains(p));
                        }
                    }
                    assert forall|p: Seq<char>| under_some_date(
                        h,
                        dates@,
                        i + 1,
                        p,
                    ) implies contains_view(out@, p) by {
                        let k = choose|k: int|
                            0 <= k < i + 1 && h.has_date((#[trigger] dates@[k])@) && h.lookup(
                                dates@[k]@,
                            ).contains(p);
                        if k < i {
                            assert(under_some_date(h, dates@, i as int, p));
                            assert(contains_view(before, p));
                            let w = choose|w: int| 0 <= w < before.len() && (#[trigger] before[w])@
                                == p;
                            assert(out@[w]@ == p);
                        } else {
                            let w = choose|w: int|
                                0 <= w < h.lookup(d).len() && (#[trigger] h.lookup(d)[w]) == p;
                            assert(h.versions@[e as int].1@[w]@ == p);
                            assert(contains_view(out@, h.versions@[e as int].1@[w]@));
                        }
                    }
                }
            },
            None => {
                proof {
                    assert forall|p: Seq<char>| under_some_date(
                        h,
                        dates@,
                        i + 1,
                        p,
                    ) implies contains_view(out@, p) by {
                        let k = choose|k: int|
                            0 <= k < i + 1 && h.has_date((#[trigger] dates@[k])@) && h.lookup(
                                dates@[k]@,
                            ).contains(p);
                        assert(k != i);
                        assert(under_some_date(h, dates@, i as int, p));
                    }
                    assert forall|p: Seq<char>| contains_view(out@, p) implies under_some_date(
                        h,
                        dates@,
                        i + 1,
                        p,
                    ) by {
                        assert(under_some_date(h, dates@, i as int, p));
                        let k1 = choose|k1: int|
                            0 <= k1 < i && h.has_date((#[trigger] dates@[k1])@) && h.lookup(
                                dates@[k1]@,
                            ).contains(p);
                        assert(0 <= k1 < i + 1 && h.has_date(dates@[k1]@) && h.lookup(
                            dates@[k1]@,
                        ).contains(p));
                    }
                }
            },
        }
        i = i + 1;
    }
    out
}

/// Whether the date is among the ledger's `n` most recent: present, with
/// fewer than `n` strictly later ledger dates.
pub open spec fn kept_date(h: ChannelHistoryFile, n: usize, d: Seq<char>) -> bool {
    h.has_date(d) && later_count(h.versions@, d) < n
}

/// Whether a channel's retention keeps the path: the channel is tracked
/// and some date among its `n` most recent lists the path.
pub open spec fn channel_keeps(h: ChannelHistoryFile, count: Option<usize>, p: Seq<char>) -> bool {
    match count {
        Some(n) => exists|d: Seq<char>| #[trigger] kept_date(h, n, d) && h.lookup(d).contains(p),
        None => false,
    }
}

/// Whether some pinned version's single most recent date lists the path.
pub open spec fn pinned_keeps(pinned: Seq<ChannelHistoryFile>, p: Seq<char>) -> bool {
    exists|k: int| 0 <= k < pinned.len() && channel_keeps(#[trigger] pinned[k], Some(1usize), p)
}

/// Whether a tracked channel's retention lets it contribute a path to the
/// keep-set: a present, positive count, and the path listed in its ledger.
pub open spec fn channel_contributes(
    h: &ChannelHistoryFile,
    count: Option<usize>,
    p: Seq<char>,
) -> bool {
    match count {
        Some(n) => n > 0 && h.lists_path(p),
        None => false,
    }
}

/// Whether a channel's whole history is retained: a count at least the
/// number of its dated entries.
pub open spec fn retains_all(h: &ChannelHistoryFile, count: Option<usize>) -> bool {
    match count {
        Some(n) => n >= h.versions@.len(),
        None => false,
    }
}

/// The files to delete: every found file that is not in the keep-set.
pub fn files_to_delete(keep: &Vec<String>, found: &Vec<String>) -> (r: Vec<String>)
    ensures
        forall|p: Seq<char>|
            contains_view(r@, p) <==> (contains_view(found@, p) && !contains_view(keep@, p)),
{
    let mut r: Vec<String> = Vec::new();
    let mut i: usize = 0;
    while i < found.len()
        invariant
            i <= found@.len(),
            forall|p: Seq<char>|
                contains_view(r@, p) <==> (contains_view(found@.take(i as int), p)
                    && !contains_view(keep@, p)),
        decreases found@.len() - i,
    {
        let ghost before = r@;
        let in_keep = vec_contains_string(keep, &found[i]);
        if !in_keep {
            r.push(found[i].clone());
        }
        proof {
            assert forall|p: Seq<char>| contains_view(r@, p) implies (contains_view(
                found@.take(i + 1),
                p,
            ) && !contains_view(keep@, p)) by {
                let k = choose|k: int| 0 <= k < r@.len() && (#[trigger] r@[k])@ == p;
                if k < before.len() {
                    assert(before[k]@ == p);
                    assert(contains_view(before, p));
                    let w = choose|w: int| 0 <= w < i && (#[trigger] found@.take(i as int)[w])@
                        == p;
                    assert(found@.take(i + 1)[w]@ == p);
                } else {
                    assert(p == found@[i as int]@);
                    assert(found@.take(i + 1)[i as int]@ == p);
                }
            }
            assert forall|p: Seq<char>| (contains_view(found@.take(i + 1), p) && !contains_view(
                keep@,
                p,
            )) implies contains_view(r@, p) by {
                let k = choose|k: int| 0 <= k < i + 1 && (#[trigger] found@.take(i + 1)[k])@ == p;
                if k < i {
                    assert(found@.take(i as int)[k]@ == p);
                    assert(contains_view(found@.take(i as int), p));
                    assert(contains_view(before, p));
                    let w = choose|w: int| 0 <= w < before.len() && (#[trigger] before[w])@ == p;
                    assert(r@[w]@ == p);
                } else {
                    assert(p == found@[i as int]@);
                    assert(!in_keep);
                    assert(r@.last()@ == p);
                }
            }
        }
        i = i + 1;
    }
    proof {
        assert(found@.take(found@.len() as int) =~= found@);
    }
    r
}

/// One channel's contribution to the keep-set: the paths under its most
/// recent dates, as many as its retention count names; nothing for an
/// untracked channel.
fn channel_keep(h: &ChannelHistoryFile, count: Option<usize>) -> (r: Vec<String>)
    requires
        h.wf(),
    ensures
        forall|p: Seq<char>| contains_view(r@, p) <==> channel_keeps(*h, count, p),
        forall|p: Seq<char>| contains_view(r@, p) ==> channel_contributes(h, count, p),
        retains_all(h, count) ==> forall|p: Seq<char>|
            h.lists_path(p) ==> contains_view(r@, p),
        count is None ==> r@.len() == 0,
{
    match count {
        Some(n) => {
            let dates = latest_dates_from_channel_history(h, n);
            let ps = paths_under_dates(h, &dates);
            proof {
                assert forall|p: Seq<char>| contains_view(ps@, p) implies channel_keeps(
                    *h,
                    Some(n),
                    p,
                ) by {
                    let k = choose|k: int|
                        0 <= k < dates@.len() && h.has_date((#[trigger] dates@[k])@) && h.lookup(
                            dates@[k]@,
                        ).contains(p);
                    let d = dates@[k]@;
                    assert(contains_view(dates@, d));
                    assert(later_count(h.versions@, d) < n);
                    assert(kept_date(*h, n, d) && (*h).lookup(d).contains(p));
                }
                assert forall|p: Seq<char>| channel_keeps(*h, Some(n), p) implies contains_view(
                    ps@,
                    p,
                ) by {
                    let d = choose|d: Seq<char>| #[trigger] kept_date(*h, n, d) && (*h).lookup(
                        d,
                    ).contains(p);
                    assert(contains_view(dates@, d));
                    let k = choose|k: int| 0 <= k < dates@.len() && (#[trigger] dates@[k])@ == d;
                    assert(h.has_date(dates@[k]@) && h.lookup(dates@[k]@).contains(p));
                    assert(under_some_date(h, dates@, dates@.len() as int, p));
                }
                assert forall|p: Seq<char>| contains_view(ps@, p) implies channel_contributes(
                    h,
                    Some(n),
                    p,
                ) by {
                    let k = choose|k: int|
                        0 <= k < dates@.len() && h.has_date((#[trigger] dates@[k])@) && h.lookup(
                            dates@[k]@,
                        ).contains(p);
                    let d = dates@[k]@;
                    let w = choose|i: int| 0 <= i < h.versions@.len() && (
                    #[trigger] h.versions@[i]).0@ == d;
                    assert(h.versions@[w].0@ == d);
                    assert(h.lookup(d) == h.versions@[w].1.deep_view());
                    assert(h.versions@[w].1.deep_view().contains(p));
                    assert(h.lists_path(p));
                }
                if n >= h.versions@.len() {
                    assert forall|p: Seq<char>| h.lists_path(p) implies contains_view(ps@, p) by {
                        let i = choose|i: int|
                            0 <= i < h.versions@.len() && (
                            #[trigger] h.versions@[i]).1.deep_view().contains(p);
                        let d = h.versions@[i].0@;
                        assert(h.has_date(d));
                        assert(contains_view(dates@, d));
                        let k = choose|k: int| 0 <= k < dates@.len() && (#[trigger] dates@[k])@
                            == d;
                        let w = choose|w: int| 0 <= w < h.versions@.len() && (
                        #[trigger] h.versions@[w]).0@ == d;
                        assert(w == i);
                        assert(h.lookup(d).contains(p));
                        assert(under_some_date(h, dates@, dates@.len() as int, p));
                    }
                }
            }
            ps
        },
        None => Vec::new(),
    }
}

/// The pinned versions' contribution to the keep-set: for each pinned
/// version, the paths under the single most recent date of its ledger.
fn pinned_keep(pinned: &Vec<ChannelHistoryFile>) -> (r: Vec<String>)
    requires
        forall|k: int| 0 <= k < pinned@.len() ==> (#[trigger] pinned@[k]).wf(),
    ensures
        forall|p: Seq<char>| contains_view(r@, p) <==> pinned_keeps(pinned@, p),
        forall|p: Seq<char>|
            contains_view(r@, p) ==> exists|k: int|
                0 <= k < pinned@.len() && (#[trigger] pinned@[k]).lists_path(p),
        pinned@.len() == 0 ==> r@.len() == 0,
{
    let mut r: Vec<String> = Vec::new();
    let mut i: usize = 0;
    while i < pinned.len()
        invariant
            i <= pinned@.len(),
            forall|k: int| 0 <= k < pinned@.len() ==> (#[trigger] pinned@[k]).wf(),
            i == 0 ==> r@.len() == 0,
            forall|p: Seq<char>|
                contains_view(r@, p) ==> exists|k: int|
                    0 <= k < i && (#[trigger] pinned@[k]).lists_path(p),
            forall|p: Seq<char>|
                contains_view(r@, p) <==> exists|k: int|
                    0 <= k < i && channel_keeps(#[trigger] pinned@[k], Some(1usize), p),
        decreases pinned@.len() - i,
    {
        let ghost before = r@;
        let mut ps = channel_keep(&pinned[i], Some(1));
        let ghost psv = ps@;
        r.append(&mut ps);
        proof {
            assert forall|p: Seq<char>| contains_view(r@, p) implies exists|k: int|
                0 <= k < i + 1 && (#[trigger] pinned@[k]).lists_path(p) by {
                let w = choose|w: int| 0 <= w < r@.len() && (#[trigger] r@[w])@ == p;
                if w < before.len() {
                    assert(before[w]@ == p);
                    assert(contains_view(before, p));
                    let k = choose|k: int| 0 <= k < i && (#[trigger] pinned@[k]).lists_path(p);
                    assert(0 <= k < i + 1 && pinned@[k].lists_path(p));
                } else {
                    assert(psv[w - before.len()]@ == p);
                    assert(contains_view(psv, p));
                    assert(pinned@[i as int].lists_path(p));
                }
            }
            assert forall|p: Seq<char>| contains_view(r@, p) implies exists|k: int|
                0 <= k < i + 1 && channel_keeps(#[trigger] pinned@[k], Some(1usize), p) by {
                let w = choose|w: int| 0 <= w < r@.len() && (#[trigger] r@[w])@ == p;
                if w < before.len() {
                    assert(before[w]@ == p);
                    assert(contains_view(before, p));
                    let k = choose|k: int|
                        0 <= k < i && channel_keeps(#[trigger] pinned@[k], Some(1usize), p);
                    assert(0 <= k < i + 1 && channel_keeps(pinned@[k], Some(1usize), p));
                } else {
                    assert(psv[w - before.len()]@ == p);
                    assert(contains_view(psv, p));
                    assert(channel_keeps(pinned@[i as int], Some(1usize), p));
                }
            }
            assert forall|p: Seq<char>| (exists|k: int|
                0 <= k < i + 1 && channel_keeps(
                    #[trigger] pinned@[k],
                    Some(1usize),
                    p,
                )) implies contains_view(r@, p) by {
                let k = choose|k: int|
                    0 <= k < i + 1 && channel_keeps(#[trigger] pinned@[k], Some(1usize), p);
                if k < i {
                    assert(contains_view(before, p));
                    let w = choose|w: int| 0 <= w < before.len() && (#[trigger] before[w])@ == p;
                    assert(r@[w]@ == p);
                } else {
                    assert(contains_view(psv, p));
                    let w = choose|w: int| 0 <= w < psv.len() && (#[trigger] psv[w])@ == p;
                    assert(r@[before.len() + w]@ == p);
                }
            }
        }
        i = i + 1;
    }
    proof {
        assert forall|p: Seq<char>| contains_view(r@, p) <==> pinned_keeps(pinned@, p) by {
            if contains_view(r@, p) {
                let k = choose|k: int|
                    0 <= k < pinned@.len() && channel_keeps(#[trigger] pinned@[k], Some(1usize), p);
            }
            if pinned_keeps(pinned@, p) {
                let k = choose|k: int|
                    0 <= k < pinned@.len() && channel_keeps(#[trigger] pinned@[k], Some(1usize), p);
            }
        }
    }
    r
}

/// The GC step: computes the delete-set from the three tracked channels'
/// ledgers and retention counts, the pinned versions' ledgers, and the
/// files found under `dist/`. The partition is exact: a found file is
/// deleted precisely when it is outside the keep-set — the union, over
/// each tracked channel, of the paths under its `n` most recent dates,
/// plus the paths under each pinned version's single most recent date.
/// In particular only found files are deleted, a channel whose whole
/// history is retained loses none of its listed paths, and with nothing
/// tracked at all every found file is deleted.
pub fn clean_old_files(
    stable: &ChannelHistoryFile,
    keep_stables: Option<usize>,
    beta: &ChannelHistoryFile,
    keep_betas: Option<usize>,
    nightly: &ChannelHistoryFile,
    keep_nightlies: Option<usize>,
    pinned: &Vec<ChannelHistoryFile>,
    found: &Vec<String>,
) -> (r: Vec<String>)
    requires
        stable.wf(),
        beta.wf(),
        nightly.wf(),
        forall|k: int| 0 <= k < pinned@.len() ==> (#[trigger] pinned@[k]).wf(),
    ensures
        forall|p: Seq<char>|
            contains_view(r@, p) <==> (contains_view(found@, p) && !(channel_keeps(
                *stable,
                keep_stables,
                p,
            ) || channel_keeps(*beta, keep_betas, p) || channel_keeps(*nightly, keep_nightlies, p)
                || pinned_keeps(pinned@, p))),
        forall|p: Seq<char>| contains_view(r@, p) ==> contains_view(found@, p),
        retains_all(stable, keep_stables) ==> forall|p: Seq<char>|
            stable.lists_path(p) ==> !contains_view(r@, p),
        retains_all(beta, keep_betas) ==> forall|p: Seq<char>|
            beta.lists_path(p) ==> !contains_view(r@, p),
        retains_all(nightly, keep_nightlies) ==> forall|p: Seq<char>|
            nightly.lists_path(p) ==> !contains_view(r@, p),
        forall|p: Seq<char>|
            contains_view(found@, p) && !contains_view(r@, p) ==> (channel_contributes(
                stable,
                keep_stables,
                p,
            ) || channel_contributes(beta, keep_betas, p) || channel_contributes(
                nightly,
                keep_nightlies,
                p,
            ) || exists|k: int| 0 <= k < pinned@.len() && (#[trigger] pinned@[k]).lists_path(p)),
        (keep_stables is None && keep_betas is None && keep_nightlies is None && pinned@.len()
            == 0) ==> forall|p: Seq<char>| contains_view(r@, p) <==> contains_view(found@, p),
{
    let mut keep = channel_keep(stable, keep_stables);
    let ghost g1 = keep@;
    let mut part = channel_keep(beta, keep_betas);
    let ghost g2 = part@;
    keep.append(&mut part);
    let mut part3 = channel_keep(nightly, keep_nightlies);
    let ghost g3 = part3@;
    keep.append(&mut part3);
    let mut part4 = pinned_keep(pinned);
    let ghost g4 = part4@;
    keep.append(&mut part4);
    proof {
        assert(keep@ == g1 + g2 + g3 + g4);
        assert forall|p: Seq<char>| contains_view(keep@, p) implies (contains_view(g1, p)
            || contains_view(g2, p) || contains_view(g3, p) || contains_view(g4, p)) by {
            let w = choose|w: int| 0 <= w < keep@.len() && (#[trigger] keep@[w])@ == p;
            if w < g1.len() {
                assert(g1[w]@ == p);
            } else if w < g1.len() + g2.len() {
                assert(g2[w - g1.len()]@ == p);
            } else if w < g1.len() + g2.len() + g3.len() {
                assert(g3[w - g1.len() - g2.len()]@ == p);
            } else {
                assert(g4[w - g1.len() - g2.len() - g3.len()]@ == p);
            }
        }
        assert forall|p: Seq<char>| (contains_view(g1, p) || contains_view(g2, p)
            || contains_view(g3, p) || contains_view(g4, p)) implies contains_view(keep@, p) by {
            if contains_view(g1, p) {
                let w = choose|w: int| 0 <= w < g1.len() && (#[trigger] g1[w])@ == p;
                assert(keep@[w]@ == p);
            } else if contains_view(g2, p) {
                let w = choose|w: int| 0 <= w < g2.len() && (#[trigger] g2[w])@ == p;
                assert(keep@[g1.len() + w]@ == p);
            } else if contains_view(g3, p) {
                let w = choose|w: int| 0 <= w < g3.len() && (#[trigger] g3[w])@ == p;
                assert(keep@[g1.len() + g2.len() + w]@ == p);
            } else {
                let w = choose|w: int| 0 <= w < g4.len() && (#[trigger] g4[w])@ == p;
                assert(keep@[g1.len() + g2.len() + g3.len() + w]@ == p);
            }
        }
        assert(forall|p: Seq<char>|
            contains_view(keep@, p) <==> (channel_keeps(*stable, keep_stables, p)
                || channel_keeps(*beta, keep_betas, p) || channel_keeps(*nightly, keep_nightlies, p)
                || pinned_keeps(pinned@, p)));
    }
    let r = files_to_delete(&keep, found);
    r
}

/// A retention count of zero contributes nothing to the keep-set: the
/// channel's existing artifacts become eligible for deletion.
pub proof fn lemma_zero_retention_contributes_nothing(h: ChannelHistoryFile, p: Seq<char>)
    ensures
        !channel_contributes(&h, Some(0usize), p),
{
}

/// A file that survives GC is in the keep-set: the delete-set is exactly
/// the found files outside it, so everything under `dist/` that remains
/// was kept on purpose.
pub proof fn lemma_survivors_are_kept(
    keep: Seq<String>,
    found: Seq<String>,
    deleted: Seq<String>,
    p: Seq<char>,
)
    requires
        forall|q: Seq<char>|
            contains_view(deleted, q) <==> (contains_view(found, q) && !contains_view(keep, q)),
        contains_view(found, p),
        !contains_view(deleted, p),
    ensures
        contains_view(keep, p),
{
}

} // verus!
