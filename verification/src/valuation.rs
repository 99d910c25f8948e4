//! The integer side of loot valuation: direct crystal, which items are
//! priced, ignored or unpriced, per-item totals and the recent-loot feed.
//! Multiplying by market prices is left to the caller.

use vstd::prelude::*;
use crate::clock::{Timestamp, duration_seconds, spec_duration_seconds};
use crate::log_lines::CRYSTAL_BASE_ID;
use crate::tracker::{LogTracker, LootEvent, RunState, RunView, TrackerView, run_views};
use crate::offline::OfflineItems;
use crate::text::opt_str;

verus! {

/// Total quantity of the events that satisfy `p`.
pub open spec fn quantity_where(loot: Seq<LootEvent>, p: spec_fn(LootEvent) -> bool) -> int
    decreases loot.len(),
{
    if loot.len() == 0 {
        0
    } else {
        quantity_where(loot.drop_last(), p) + if p(loot.last()) {
            loot.last().quantity as int
        } else {
            0
        }
    }
}

/// Number of events that satisfy `p`.
pub open spec fn count_where(loot: Seq<LootEvent>, p: spec_fn(LootEvent) -> bool) -> nat
    decreases loot.len(),
{
    if loot.len() == 0 {
        0
    } else {
        count_where(loot.drop_last(), p) + if p(loot.last()) {
            1nat
        } else {
            0nat
        }
    }
}

/// The events that satisfy `p`, in order.
pub open spec fn events_where(loot: Seq<LootEvent>, p: spec_fn(LootEvent) -> bool) -> Seq<LootEvent>
    decreases loot.len(),
{
    if loot.len() == 0 {
        seq![]
    } else if p(loot.last()) {
        events_where(loot.drop_last(), p).push(loot.last())
    } else {
        events_where(loot.drop_last(), p)
    }
}

pub open spec fn is_crystal() -> spec_fn(LootEvent) -> bool {
    |e: LootEvent| e.config_base_id == CRYSTAL_BASE_ID
}

/// A non-crystal item that is neither ignored nor priced.
pub open spec fn is_unpriced(priced: Seq<i64>, ignored: Seq<i64>) -> spec_fn(LootEvent) -> bool {
    |e: LootEvent|
        e.config_base_id != CRYSTAL_BASE_ID && !ignored.contains(e.config_base_id)
            && !priced.contains(e.config_base_id)
}

/// A non-crystal item that is not ignored and has a price.
pub open spec fn is_priced(priced: Seq<i64>, ignored: Seq<i64>) -> spec_fn(LootEvent) -> bool {
    |e: LootEvent|
        e.config_base_id != CRYSTAL_BASE_ID && !ignored.contains(e.config_base_id)
            && priced.contains(e.config_base_id)
}

/// The parts of a run's value that need no price.
pub struct LootValuation {
    /// Crystal picked up directly.
    pub crystal: i128,
    /// Events of items that have no price and are not ignored.
    pub unpriced_item_count: usize,
    /// All events.
    pub item_count: usize,
    /// The events to value at their item's price.
    pub priced: Vec<LootEvent>,
}

fn contains_id(ids: &Vec<i64>, id: i64) -> (b: bool)
    ensures
        b == ids@.contains(id),
{
    let mut i: usize = 0;
    while i < ids.len()
        invariant
            i <= ids@.len(),
            forall|k: int| 0 <= k < i ==> ids@[k] != id,
        decreases ids@.len() - i,
    {
        if ids[i] == id {
            assert(ids@[i as int] == id);
            return true;
        }
        i += 1;
    }
    false
}

pub proof fn lemma_quantity_bound(loot: Seq<LootEvent>, p: spec_fn(LootEvent) -> bool)
    ensures
        -(loot.len() as int) * 0x8000_0000_0000_0000 <= quantity_where(loot, p) <= (loot.len() as int)
            * 0x7fff_ffff_ffff_ffff,
    decreases loot.len(),
{
    if loot.len() > 0 {
        lemma_quantity_bound(loot.drop_last(), p);
        let n = loot.len() as int;
        assert((n - 1) * 0x8000_0000_0000_0000 + 0x8000_0000_0000_0000 == n * 0x8000_0000_0000_0000)
            by (nonlinear_arith);
        assert((n - 1) * 0x7fff_ffff_ffff_ffff + 0x7fff_ffff_ffff_ffff == n * 0x7fff_ffff_ffff_ffff)
            by (nonlinear_arith);
    }
}

proof fn lemma_i128_room(n: int)
    requires
        0 <= n <= 0xffff_ffff_ffff_ffff,
    ensures
        n * 0x8000_0000_0000_0000 + 0x8000_0000_0000_0000 <= 0x8000_0000_0000_0000_0000_0000_0000_0000,
        n * 0x7fff_ffff_ffff_ffff + 0x7fff_ffff_ffff_ffff < 0x7fff_ffff_ffff_ffff_ffff_ffff_ffff_ffff,
{
    assert(n * 0x8000_0000_0000_0000 <= 0xffff_ffff_ffff_ffff * 0x8000_0000_0000_0000) by (nonlinear_arith)
        requires
            0 <= n <= 0xffff_ffff_ffff_ffff,
    ;
    assert(n * 0x7fff_ffff_ffff_ffff <= 0xffff_ffff_ffff_ffff * 0x7fff_ffff_ffff_ffff) by (nonlinear_arith)
        requires
            0 <= n <= 0xffff_ffff_ffff_ffff,
    ;
}

/// Splits a run's loot into direct crystal, unpriced items and items to
/// value at their price. `priced_ids` are the items with a known price,
/// `ignored_ids` those the user excluded.
pub fn value_loot(loot: &Vec<LootEvent>, priced_ids: &Vec<i64>, ignored_ids: &Vec<i64>) -> (r:
    LootValuation)
    ensures
        r.crystal == quantity_where(loot@, is_crystal()),
        r.unpriced_item_count == count_where(loot@, is_unpriced(priced_ids@, ignored_ids@)),
        r.item_count == loot@.len(),
        r.priced@ == events_where(loot@, is_priced(priced_ids@, ignored_ids@)),
{
    let mut crystal: i128 = 0;
    let mut unpriced: usize = 0;
    let mut priced: Vec<LootEvent> = Vec::new();
    let n = loot.len();
    let mut i: usize = 0;
    while i < n
        invariant
            n == loot@.len(),
            i <= n,
            crystal == quantity_where(loot@.take(i as int), is_crystal()),
            unpriced == count_where(loot@.take(i as int), is_unpriced(priced_ids@, ignored_ids@)),
            unpriced <= i,
            priced@ == events_where(loot@.take(i as int), is_priced(priced_ids@, ignored_ids@)),
        decreases n - i,
    {
        let ghost pre = loot@.take(i as int);
        assert(loot@.take(i + 1).drop_last() =~= pre);
        assert(loot@.take(i + 1).last() == loot@[i as int]);
        let e = loot[i];
        proof {
            lemma_quantity_bound(pre, is_crystal());
            lemma_i128_room(i as int);
        }
        if e.config_base_id == CRYSTAL_BASE_ID {
            crystal = crystal + e.quantity as i128;
        } else if !contains_id(ignored_ids, e.config_base_id) {
            if contains_id(priced_ids, e.config_base_id) {
                priced.push(e);
            } else {
                unpriced = unpriced + 1;
            }
        }
        i += 1;
    }
    assert(loot@.take(n as int) =~= loot@);
    LootValuation { crystal, unpriced_item_count: unpriced, item_count: n, priced }
}


/// All loot of the runs, in order.
pub open spec fn runs_loot(runs: Seq<RunView>) -> Seq<LootEvent>
    decreases runs.len(),
{
    if runs.len() == 0 {
        seq![]
    } else {
        runs_loot(runs.drop_last()) + runs.last().loot
    }
}

/// All loot of the session: finished runs first, then the current run.
pub open spec fn session_loot(t: TrackerView) -> Seq<LootEvent> {
    runs_loot(t.completed_runs) + match t.current_run {
        Some(r) => r.loot,
        None => seq![],
    }
}

fn append_loot(out: &mut Vec<LootEvent>, loot: &Vec<LootEvent>)
    ensures
        final(out)@ == old(out)@ + loot@,
{
    let mut i: usize = 0;
    while i < loot.len()
        invariant
            i <= loot@.len(),
            out@ == old(out)@ + loot@.take(i as int),
        decreases loot@.len() - i,
    {
        out.push(loot[i]);
        assert(old(out)@ + loot@.take(i as int).push(loot@[i as int]) =~= old(out)@ + loot@.take(
            i + 1,
        ));
        i += 1;
    }
    assert(loot@.take(loot@.len() as int) =~= loot@);
}

/// Every loot event of the session, oldest first.
pub fn session_loot_of(tracker: &LogTracker) -> (r: Vec<LootEvent>)
    ensures
        r@ == session_loot(tracker@),
{
    let runs = tracker.completed_runs();
    let mut out: Vec<LootEvent> = Vec::new();
    let mut i: usize = 0;
    while i < runs.len()
        invariant
            i <= runs@.len(),
            run_views(runs@) == tracker@.completed_runs,
            out@ == runs_loot(run_views(runs@).take(i as int)),
        decreases runs@.len() - i,
    {
        assert(run_views(runs@).take(i + 1).drop_last() =~= run_views(runs@).take(i as int));
        assert(run_views(runs@).take(i + 1).last() == runs@[i as int]@);
        append_loot(&mut out, &runs[i].loot);
        i += 1;
    }
    assert(run_views(runs@).take(runs@.len() as int) =~= run_views(runs@));
    match tracker.current_run() {
        Some(run) => append_loot(&mut out, &run.loot),
        None => {
            assert(out@ + seq![] =~= out@);
        },
    }
    out
}

/// The most recent loot, newest first, at most twelve events.
pub fn recent_loot(tracker: &LogTracker) -> (r: Vec<LootEvent>)
    ensures
        r@.len() == if session_loot(tracker@).len() < 12 {
            session_loot(tracker@).len()
        } else {
            12
        },
        forall|i: int|
            0 <= i < r@.len() ==> r@[i] == session_loot(tracker@)[session_loot(tracker@).len() - 1
                - i],
{
    let all = session_loot_of(tracker);
    let n = all.len();
    let mut out: Vec<LootEvent> = Vec::new();
    let mut k: usize = 0;
    while k < n && k < 12
        invariant
            n == all@.len(),
            k <= n,
            k <= 12,
            out@.len() == k,
            forall|i: int| 0 <= i < k ==> out@[i] == all@[n - 1 - i],
        decreases n - k,
    {
        out.push(all[n - 1 - k]);
        k += 1;
    }
    out
}

pub open spec fn has_id(id: i64) -> spec_fn(LootEvent) -> bool {
    |e: LootEvent| e.config_base_id == id
}

/// Ids that get a row: looted, priced or ignored.
pub open spec fn row_candidate(loot: Seq<LootEvent>, priced: Seq<i64>, ignored: Seq<i64>, id: i64) -> bool {
    (exists|k: int| 0 <= k < loot.len() && #[trigger] loot[k].config_base_id == id) || priced.contains(id)
        || ignored.contains(id)
}

/// Ids that get a row; crystal only once some was picked up.
pub open spec fn row_included(loot: Seq<LootEvent>, priced: Seq<i64>, ignored: Seq<i64>, id: i64) -> bool {
    row_candidate(loot, priced, ignored, id) && (id != CRYSTAL_BASE_ID || quantity_where(
        loot,
        has_id(id),
    ) > 0)
}

fn quantity_of(loot: &Vec<LootEvent>, id: i64) -> (r: i128)
    ensures
        r == quantity_where(loot@, has_id(id)),
{
    let n = loot.len();
    let mut q: i128 = 0;
    let mut i: usize = 0;
    while i < n
        invariant
            n == loot@.len(),
            i <= n,
            q == quantity_where(loot@.take(i as int), has_id(id)),
        decreases n - i,
    {
        let ghost pre = loot@.take(i as int);
        assert(loot@.take(i + 1).drop_last() =~= pre);
        assert(loot@.take(i + 1).last() == loot@[i as int]);
        proof {
            lemma_quantity_bound(pre, has_id(id));
            lemma_i128_room(i as int);
        }
        if loot[i].config_base_id == id {
            q = q + loot[i].quantity as i128;
        }
        i += 1;
    }
    assert(loot@.take(n as int) =~= loot@);
    q
}

/// `c` lies above `last` (everything does when there is no `last`).
pub open spec fn above(last: Option<i64>, c: i64) -> bool {
    match last {
        Some(l) => c > l,
        None => true,
    }
}

/// The smallest candidate greater than `last`.
fn next_candidate(cands: &Vec<i64>, last: Option<i64>) -> (r: Option<i64>)
    ensures
        r matches Some(c) ==> cands@.contains(c) && above(last, c) && forall|k: int|
            0 <= k < cands@.len() && above(last, #[trigger] cands@[k]) ==> c <= cands@[k],
        r is None ==> forall|k: int| 0 <= k < cands@.len() ==> !above(last, #[trigger] cands@[k]),
{
    let mut best: Option<i64> = None;
    let mut i: usize = 0;
    while i < cands.len()
        invariant
            i <= cands@.len(),
            best matches Some(c) ==> cands@.contains(c) && above(last, c) && forall|k: int|
                0 <= k < i && above(last, #[trigger] cands@[k]) ==> c <= cands@[k],
            best is None ==> forall|k: int| 0 <= k < i ==> !above(last, #[trigger] cands@[k]),
        decreases cands@.len() - i,
    {
        let c = cands[i];
        let is_above = match last {
            Some(l) => c > l,
            None => true,
        };
        if is_above {
            match best {
                Some(b) => {
                    if c < b {
                        best = Some(c);
                    }
                },
                None => {
                    best = Some(c);
                },
            }
        }
        i += 1;
    }
    best
}

/// Per-item quantities for the item table, by ascending id: every looted,
/// priced or ignored item, except crystal while none was picked up.
pub fn loot_quantities(tracker: &LogTracker, priced_ids: &Vec<i64>, ignored_ids: &Vec<i64>) -> (r:
    Vec<(i64, i128)>)
    ensures
        forall|a: int, b: int| 0 <= a < b < r@.len() ==> r@[a].0 < r@[b].0,
        forall|k: int|
            0 <= k < r@.len() ==> row_included(
                session_loot(tracker@),
                priced_ids@,
                ignored_ids@,
                #[trigger] r@[k].0,
            ) && r@[k].1 == quantity_where(session_loot(tracker@), has_id(r@[k].0)),
        forall|id: i64|
            row_included(session_loot(tracker@), priced_ids@, ignored_ids@, id) ==> exists|k: int|
                0 <= k < r@.len() && #[trigger] r@[k].0 == id,
{
    let all = session_loot_of(tracker);
    let ghost loot = all@;
    let mut cands: Vec<i64> = Vec::new();
    let mut i: usize = 0;
    while i < all.len()
        invariant
            i <= all@.len(),
            cands@.len() == i,
            forall|k: int| 0 <= k < i ==> cands@[k] == all@[k].config_base_id,
        decreases all@.len() - i,
    {
        cands.push(all[i].config_base_id);
        i += 1;
    }
    let ghost nl = cands@.len();
    let mut j: usize = 0;
    while j < priced_ids.len()
        invariant
            j <= priced_ids@.len(),
            nl == all@.len(),
            cands@.len() == nl + j,
            forall|k: int| 0 <= k < nl ==> cands@[k] == all@[k].config_base_id,
            forall|k: int| 0 <= k < j ==> cands@[nl + k] == priced_ids@[k],
        decreases priced_ids@.len() - j,
    {
        cands.push(priced_ids[j]);
        j += 1;
    }
    let ghost np = cands@.len();
    let mut j2: usize = 0;
    while j2 < ignored_ids.len()
        invariant
            j2 <= ignored_ids@.len(),
            nl == all@.len(),
            np == nl + priced_ids@.len(),
            cands@.len() == np + j2,
            forall|k: int| 0 <= k < nl ==> cands@[k] == all@[k].config_base_id,
            forall|k: int| 0 <= k < priced_ids@.len() ==> cands@[nl + k] == priced_ids@[k],
            forall|k: int| 0 <= k < j2 ==> cands@[np + k] == ignored_ids@[k],
        decreases ignored_ids@.len() - j2,
    {
        cands.push(ignored_ids[j2]);
        j2 += 1;
    }
    assert forall|id: i64| row_candidate(loot, priced_ids@, ignored_ids@, id) implies cands@.contains(
        id,
    ) by {
        if exists|k: int| 0 <= k < loot.len() && #[trigger] loot[k].config_base_id == id {
            let k = choose|k: int| 0 <= k < loot.len() && #[trigger] loot[k].config_base_id == id;
            assert(cands@[k] == id);
        } else if priced_ids@.contains(id) {
            let k = choose|k: int| 0 <= k < priced_ids@.len() && priced_ids@[k] == id;
            assert(cands@[nl + k] == id);
        } else {
            let k = choose|k: int| 0 <= k < ignored_ids@.len() && ignored_ids@[k] == id;
            assert(cands@[np + k] == id);
        }
    }
    assert forall|c: i64| cands@.contains(c) implies row_candidate(loot, priced_ids@, ignored_ids@, c) by {
        let k = choose|k: int| 0 <= k < cands@.len() && cands@[k] == c;
        if k < nl {
            assert(loot[k].config_base_id == c);
        } else if k < np {
            assert(priced_ids@[k - nl] == c);
        } else {
            assert(ignored_ids@[k - np] == c);
        }
    }
    let mut out: Vec<(i64, i128)> = Vec::new();
    let mut last: Option<i64> = None;
    loop
        invariant
            loot == session_loot(tracker@),
            all@ == loot,
            forall|c: i64| #[trigger] cands@.contains(c) <==> row_candidate(loot, priced_ids@, ignored_ids@, c),
            forall|a: int, b: int| 0 <= a < b < out@.len() ==> out@[a].0 < out@[b].0,
            forall|k: int| 0 <= k < out@.len() ==> !above(last, #[trigger] out@[k].0),
            forall|k: int|
                0 <= k < out@.len() ==> row_included(loot, priced_ids@, ignored_ids@, #[trigger] out@[k].0)
                    && out@[k].1 == quantity_where(loot, has_id(out@[k].0)),
            forall|id: i64|
                row_included(loot, priced_ids@, ignored_ids@, id) && !above(last, id) ==> exists|k: int|
                    0 <= k < out@.len() && #[trigger] out@[k].0 == id,
        decreases (i64::MAX as int) - (match last {
            Some(l) => l as int,
            None => i64::MIN as int - 1,
        }),
    {
        let c = match next_candidate(&cands, last) {
            Some(c) => c,
            None => {
                assert forall|id: i64| row_included(loot, priced_ids@, ignored_ids@, id) implies exists|k: int|
                    0 <= k < out@.len() && #[trigger] out@[k].0 == id by {
                    assert(cands@.contains(id));
                    let k = choose|k: int| 0 <= k < cands@.len() && cands@[k] == id;
                }
                return out;
            },
        };
        let q = quantity_of(&all, c);
        let ghost prev_out = out@;
        if c != CRYSTAL_BASE_ID || q > 0 {
            out.push((c, q));
            assert forall|k: int| 0 <= k < out@.len() implies row_included(
                loot,
                priced_ids@,
                ignored_ids@,
                #[trigger] out@[k].0,
            ) && out@[k].1 == quantity_where(loot, has_id(out@[k].0)) by {
                if k < prev_out.len() {
                    assert(out@[k] == prev_out[k]);
                }
            }
        }
        assert forall|id: i64|
            row_included(loot, priced_ids@, ignored_ids@, id) && id <= c implies exists|k: int|
                0 <= k < out@.len() && #[trigger] out@[k].0 == id by {
            if id == c {
                assert(out@[out@.len() - 1].0 == c);
            } else {
                assert(cands@.contains(id));
                let kk = choose|kk: int| 0 <= kk < cands@.len() && cands@[kk] == id;
                let k = choose|k: int| 0 <= k < prev_out.len() && #[trigger] prev_out[k].0 == id;
                assert(out@[k] == prev_out[k]);
            }
        }
        last = Some(c);
    }
}

/// When a run ended, or when it was last seen if it has not ended.
pub open spec fn run_end(r: RunView) -> Timestamp {
    match r.ended_at {
        Some(t) => t,
        None => r.last_seen_at,
    }
}

/// Total seconds of the runs.
pub open spec fn runs_seconds(runs: Seq<RunView>) -> int
    decreases runs.len(),
{
    if runs.len() == 0 {
        0
    } else {
        runs_seconds(runs.drop_last()) + spec_duration_seconds(runs.last().started_at, run_end(runs.last()))
    }
}

/// The duration of each run, and their total.
pub fn run_durations(runs: &Vec<RunState>) -> (r: (Vec<i64>, i128))
    ensures
        r.0@.len() == runs@.len(),
        forall|k: int|
            0 <= k < runs@.len() ==> r.0@[k] == spec_duration_seconds(
                #[trigger] runs@[k].started_at,
                run_end(runs@[k]@),
            ),
        r.1 == runs_seconds(run_views(runs@)),
{
    let n = runs.len();
    let mut out: Vec<i64> = Vec::new();
    let mut total: i128 = 0;
    let mut i: usize = 0;
    while i < n
        invariant
            n == runs@.len(),
            i <= n,
            out@.len() == i,
            forall|k: int|
                0 <= k < i ==> out@[k] == spec_duration_seconds(
                    #[trigger] runs@[k].started_at,
                    run_end(runs@[k]@),
                ),
            total == runs_seconds(run_views(runs@).take(i as int)),
            0 <= total <= i * 0x7fff_ffff_ffff_ffff,
        decreases n - i,
    {
        assert(run_views(runs@).take(i + 1).drop_last() =~= run_views(runs@).take(i as int));
        assert(run_views(runs@).take(i + 1).last() == runs@[i as int]@);
        let run = &runs[i];
        let end = match run.ended_at {
            Some(t) => t,
            None => run.last_seen_at,
        };
        let d = duration_seconds(run.started_at, end);
        proof {
            lemma_i128_room(i as int);
            assert(i * 0x7fff_ffff_ffff_ffff + 0x7fff_ffff_ffff_ffff == (i + 1) * 0x7fff_ffff_ffff_ffff)
                by (nonlinear_arith);
        }
        total = total + d as i128;
        out.push(d);
        i += 1;
    }
    assert(run_views(runs@).take(n as int) =~= run_views(runs@));
    (out, total)
}

/// The run shown on the top bar.
pub struct RunCard {
    pub map_name_ko: String,
    pub difficulty: String,
    pub elapsed_seconds: i64,
}

/// The card of `run` as of `ended_at`.
pub fn current_run_summary(run: &RunState, ended_at: Timestamp) -> (r: RunCard)
    ensures
        r.map_name_ko@ == run@.map_name_ko,
        r.difficulty@ == run@.difficulty,
        r.elapsed_seconds == spec_duration_seconds(run.started_at, ended_at),
{
    RunCard {
        map_name_ko: run.map_name_ko.clone(),
        difficulty: run.difficulty.clone(),
        elapsed_seconds: duration_seconds(run.started_at, ended_at),
    }
}

/// The top-bar card: the run in progress as of `now`, else the last
/// finished run as of its end, else the waiting card.
pub fn displayed_run(tracker: &LogTracker, now: Timestamp) -> (r: RunCard)
    ensures
        match tracker@.current_run {
            Some(run) => r.map_name_ko@ == run.map_name_ko && r.difficulty@ == run.difficulty
                && r.elapsed_seconds == spec_duration_seconds(run.started_at, now),
            None => if tracker@.completed_runs.len() > 0 {
                let run = tracker@.completed_runs.last();
                r.map_name_ko@ == run.map_name_ko && r.difficulty@ == run.difficulty
                    && r.elapsed_seconds == spec_duration_seconds(run.started_at, run_end(run))
            } else {
                r.map_name_ko@ == "대기 중"@ && r.difficulty@ == "-"@ && r.elapsed_seconds == 0
            },
        },
{
    match tracker.current_run() {
        Some(run) => current_run_summary(run, now),
        None => {
            let runs = tracker.completed_runs();
            if runs.len() > 0 {
                let run = &runs[runs.len() - 1];
                assert(run@ == tracker@.completed_runs.last());
                let end = match run.ended_at {
                    Some(t) => t,
                    None => run.last_seen_at,
                };
                current_run_summary(run, end)
            } else {
                RunCard {
                    map_name_ko: "대기 중".to_owned(),
                    difficulty: "-".to_owned(),
                    elapsed_seconds: 0,
                }
            }
        },
    }
}

/// What the item table shows of an item besides its numbers.
pub struct RowLabels {
    /// The user excluded the item.
    pub ignored: bool,
    /// Counted, but with no price.
    pub unpriced: bool,
    /// `ignored`, the price's confidence, or `unpriced`.
    pub price_source: String,
    /// The fixed name of crystal, else the stored name, else the shipped one.
    pub item_name_ko: Option<String>,
}

/// The labels of an item's row. `confidence` is that of its price, when it
/// has one; `stored_name` is the name kept by the application.
pub fn row_labels(
    config_base_id: i64,
    ignored_ids: &Vec<i64>,
    confidence: Option<&str>,
    stored_name: Option<String>,
    items: &OfflineItems,
) -> (r: RowLabels)
    ensures
        r.ignored == ignored_ids@.contains(config_base_id),
        r.unpriced == (!r.ignored && confidence is None),
        r.price_source@ == if r.ignored {
            "ignored"@
        } else {
            match confidence {
                Some(c) => c@,
                None => "unpriced"@,
            }
        },
        opt_str(r.item_name_ko) == if config_base_id == CRYSTAL_BASE_ID {
            Some("최초의 불꽃 결정"@)
        } else {
            match stored_name {
                Some(n) => Some(n@),
                None => if items@.contains_key(config_base_id) {
                    items@[config_base_id]
                } else {
                    None
                },
            }
        },
{
    let ignored = contains_id(ignored_ids, config_base_id);
    let unpriced = !ignored && confidence.is_none();
    let price_source = if ignored {
        "ignored".to_owned()
    } else {
        match confidence {
            Some(c) => c.to_owned(),
            None => "unpriced".to_owned(),
        }
    };
    let item_name_ko = if config_base_id == CRYSTAL_BASE_ID {
        Some("최초의 불꽃 결정".to_owned())
    } else {
        match stored_name {
            Some(n) => Some(n),
            None => items.item_name_ko(config_base_id),
        }
    };
    RowLabels { ignored, unpriced, price_source, item_name_ko }
}

} // verus!
