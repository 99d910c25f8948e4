//! Properties that hold across the tracker's steps: what every log line
//! keeps, when loot is counted, and what a read of the log leaves behind.

use vstd::prelude::*;
use crate::clock::{Timestamp, spec_duration_seconds};
use crate::log_lines::{ItemUpdateView, spec_inventory_key, spec_is_town_line, spec_map_code, spec_proto_start};
use crate::offline::OfflineMapsView;
use crate::tracker::{
    ActionView, LootEvent, RunView, TrackerView, initial_view, next_id, sp_close_run, sp_consume_line,
    sp_gain, sp_item_update, sp_map_line, sp_open_run, sp_price_line, sp_run_area_lv, spec_take_chunk,
    sp_close_fallbacks, sp_consume_fallbacks, sp_item_fallbacks, sp_open_fallbacks, counted_view,
    next_line_number, BlockView,
};
use crate::text::{lemma_rfind_char_before, rfind_char, newline_count, open_tail, law_line_count, lemma_newline_count_add};
use crate::game_log::{
    ascii_lower, candidate_fold, eq_ignore_ascii_case, push_candidate, push_unique, unique_fold,
};
use crate::log_lines::CRYSTAL_BASE_ID;
use crate::valuation::{count_where, events_where, is_crystal, is_priced, is_unpriced};
use crate::parser::{ParseView, SummaryView, ps_close_run, ps_consume_line, ps_crystal_total};
use crate::clock::{spec_duration_seconds_opt, spec_parse_timestamp};
use crate::game_log::{spec_default_log_path, spec_resolve};
use crate::log_lines::spec_message_start;
use crate::price::{PriceRequest, spec_refer_base_id};
use crate::text::contains;

verus! {

/// A finished run ended, and lasted at least a second or holds loot.
pub open spec fn run_kept(r: RunView) -> bool {
    r.ended_at matches Some(e) && (spec_duration_seconds(r.started_at, e) > 0 || r.loot.len() > 0)
}

/// Every loot event of the run gained something.
pub open spec fn loot_positive(r: RunView) -> bool {
    forall|k: int| 0 <= k < r.loot.len() ==> #[trigger] r.loot[k].quantity > 0
}

/// The shape every session keeps: finished runs in increasing id order, each
/// ended and worth keeping; a current run still open with the newest id; all
/// ids below the next one to hand out; loot only of gains.
pub open spec fn session_wf(t: TrackerView) -> bool {
    &&& forall|i: int, j: int|
        0 <= i < j < t.completed_runs.len() ==> #[trigger] t.completed_runs[i].id
            < #[trigger] t.completed_runs[j].id
    &&& forall|i: int|
        0 <= i < t.completed_runs.len() ==> {
            &&& #[trigger] t.completed_runs[i].id < t.next_run_id
            &&& run_kept(t.completed_runs[i])
            &&& loot_positive(t.completed_runs[i])
        }
    &&& t.current_run matches Some(r) ==> {
        &&& r.id < t.next_run_id
        &&& r.ended_at is None
        &&& loot_positive(r)
        &&& forall|i: int| 0 <= i < t.completed_runs.len() ==> #[trigger] t.completed_runs[i].id < r.id
    }
}

/// Runs and run ids are untouched between two views.
pub open spec fn same_runs(a: TrackerView, b: TrackerView) -> bool {
    &&& a.current_run == b.current_run
    &&& a.completed_runs == b.completed_runs
    &&& a.next_run_id == b.next_run_id
}

proof fn lemma_same_runs_wf(a: TrackerView, b: TrackerView)
    requires
        session_wf(a),
        same_runs(a, b),
    ensures
        session_wf(b),
{
}

proof fn lemma_close_wf(t: TrackerView, ts: Timestamp)
    requires
        session_wf(t),
    ensures
        session_wf(sp_close_run(t, ts).0),
        sp_close_run(t, ts).0.current_run is None,
        sp_close_run(t, ts).0.next_run_id == t.next_run_id,
        sp_close_run(t, ts).0.current_proto == t.current_proto,
{
    let out = sp_close_run(t, ts).0;
    match t.current_run {
        None => {},
        Some(run) => {
            let n = t.completed_runs.len();
            assert forall|i: int, j: int|
                0 <= i < j < out.completed_runs.len() implies #[trigger] out.completed_runs[i].id
                < #[trigger] out.completed_runs[j].id by {
                if j == n {
                    assert(out.completed_runs[i] == t.completed_runs[i]);
                }
            }
            assert forall|i: int| 0 <= i < out.completed_runs.len() implies {
                &&& #[trigger] out.completed_runs[i].id < out.next_run_id
                &&& run_kept(out.completed_runs[i])
                &&& loot_positive(out.completed_runs[i])
            } by {
                if i < n {
                    assert(out.completed_runs[i] == t.completed_runs[i]);
                }
            }
        },
    }
}

proof fn lemma_open_wf(
    t: TrackerView,
    map_code: Seq<char>,
    map_name_ko: Seq<char>,
    difficulty: Seq<char>,
    area_lv: Option<i64>,
    ts: Timestamp,
)
    requires
        session_wf(t),
        t.next_run_id < i64::MAX,
    ensures
        session_wf(sp_open_run(t, map_code, map_name_ko, difficulty, area_lv, ts).0),
        sp_open_run(t, map_code, map_name_ko, difficulty, area_lv, ts).0.current_proto
            == t.current_proto,
{
    let start_new = match t.current_run {
        Some(run) => run.map_code != map_code || run.difficulty != difficulty,
        None => true,
    };
    if start_new {
        lemma_close_wf(t, ts);
        let t1 = sp_close_run(t, ts).0;
        let out = sp_open_run(t, map_code, map_name_ko, difficulty, area_lv, ts).0;
        assert(out.completed_runs == t1.completed_runs);
        assert(out.next_run_id == next_id(t1.next_run_id));
        assert(out.next_run_id == t1.next_run_id + 1);
    }
}

proof fn lemma_item_wf(t: TrackerView, u: ItemUpdateView, ts: Timestamp, raw_line: Seq<char>)
    requires
        session_wf(t),
    ensures
        session_wf(sp_item_update(t, u, ts, raw_line).0),
        sp_item_update(t, u, ts, raw_line).0.current_proto == t.current_proto,
{
    let out = sp_item_update(t, u, ts, raw_line).0;
    match sp_gain(t, u) {
        None => {},
        Some(d) => {
            if t.current_proto == Some("PickItems"@) {
                match t.current_run {
                    None => {},
                    Some(run) => {
                        let r2 = out.current_run.unwrap();
                        assert forall|k: int| 0 <= k < r2.loot.len() implies #[trigger] r2.loot[k].quantity
                            > 0 by {
                            if k < run.loot.len() {
                                assert(r2.loot[k] == run.loot[k]);
                            }
                        }
                    },
                }
            }
        },
    }
}

/// Every log line keeps the session's shape (while run ids remain to hand
/// out): finished runs stay ordered by id, ended and worth keeping, the
/// current run stays open with the newest id, and loot holds only gains.
#[verifier::spinoff_prover]
#[verifier::rlimit(40)]
pub proof fn law_line_keeps_session_shape(t: TrackerView, line: Seq<char>, ts: Timestamp, maps: OfflineMapsView)
    requires
        session_wf(t),
        t.next_run_id < i64::MAX,
    ensures
        session_wf(sp_consume_line(t, line, ts, maps).0),
{
    let (t1, a1) = sp_price_line(t, line);
    assert(same_runs(t, t1));
    lemma_same_runs_wf(t, t1);
    let t2 = match crate::log_lines::spec_area_lv(line) {
        Some(a) => TrackerView { pending_area_lv: Some(a), ..t1 },
        None => t1,
    };
    let t3 = match crate::log_lines::spec_level_info(line) {
        Some((uid, id)) => TrackerView { pending_level_uid: Some(uid), pending_level_id: id, ..t2 },
        None => t2,
    };
    assert(same_runs(t1, t3));
    lemma_same_runs_wf(t1, t3);
    let (t4, a4) = if spec_is_town_line(line) {
        sp_close_run(t3, ts)
    } else {
        (t3, seq![])
    };
    if spec_is_town_line(line) {
        lemma_close_wf(t3, ts);
    }
    assert(t4.next_run_id == t.next_run_id);
    let (t5, a5) = sp_map_line(t4, line, ts, maps);
    match spec_map_code(line) {
        Some(code) => {
            if !crate::log_lines::spec_is_town_map_code(code) {
                let area_lv = sp_run_area_lv(t4);
                lemma_open_wf(
                    t4,
                    code,
                    crate::offline::spec_map_name_from_code(maps, code, t4.pending_level_id),
                    crate::log_lines::spec_difficulty(area_lv),
                    area_lv,
                    ts,
                );
            }
        },
        None => {},
    }
    assert(session_wf(t5));
    let t6 = match spec_proto_start(line) {
        Some(p) => TrackerView { current_proto: Some(p), ..t5 },
        None => t5,
    };
    assert(same_runs(t5, t6));
    lemma_same_runs_wf(t5, t6);
    let (t7, a7) = match crate::log_lines::spec_item_update(line) {
        Some(u) => sp_item_update(t6, u, ts, line),
        None => (t6, seq![]),
    };
    match crate::log_lines::spec_item_update(line) {
        Some(u) => lemma_item_wf(t6, u, ts, line),
        None => {},
    }
    let t8 = if crate::log_lines::spec_is_proto_end(line) {
        TrackerView { current_proto: None, ..t7 }
    } else {
        t7
    };
    assert(same_runs(t7, t8));
    lemma_same_runs_wf(t7, t8);
    let t9 = match t8.current_run {
        Some(r) => TrackerView { current_run: Some(RunView { last_seen_at: ts, ..r }), ..t8 },
        None => t8,
    };
    assert(t9 == sp_consume_line(t, line, ts, maps).0);
}

/// A fresh session has the shape every line keeps.
pub proof fn law_fresh_session_shape(log_path: Seq<char>)
    ensures
        session_wf(initial_view(log_path)),
{
}

/// Loot is recorded only while picking items up during a run, and only for
/// a gain: otherwise an item change leaves the runs as they were and emits
/// nothing.
pub proof fn law_loot_needs_pick_items_in_run(t: TrackerView, u: ItemUpdateView, ts: Timestamp, raw_line: Seq<char>)
    ensures
        sp_item_update(t, u, ts, raw_line).1.len() > 0 ==> {
            &&& t.current_proto == Some("PickItems"@)
            &&& t.current_run is Some
            &&& sp_gain(t, u) matches Some(d) && d > 0
        },
        !(t.current_proto == Some("PickItems"@) && t.current_run is Some) ==> {
            &&& sp_item_update(t, u, ts, raw_line).1.len() == 0
            &&& same_runs(sp_item_update(t, u, ts, raw_line).0, t)
        },
{
}

/// A line read while no `PickItems` block is open, and which does not open
/// one, records no loot.
pub proof fn law_no_loot_outside_pick_items(t: TrackerView, line: Seq<char>, ts: Timestamp, maps: OfflineMapsView)
    requires
        t.current_proto != Some("PickItems"@),
        spec_proto_start(line) != Some("PickItems"@),
    ensures
        forall|k: int|
            0 <= k < sp_consume_line(t, line, ts, maps).1.len() ==> !(#[trigger] sp_consume_line(
                t,
                line,
                ts,
                maps,
            ).1[k] is InsertLootEvent),
{
    let (t1, a1) = sp_price_line(t, line);
    assert(t1.current_proto == t.current_proto);
    assert forall|k: int| 0 <= k < a1.len() implies !(#[trigger] a1[k] is InsertLootEvent) by {}
    let t2 = match crate::log_lines::spec_area_lv(line) {
        Some(a) => TrackerView { pending_area_lv: Some(a), ..t1 },
        None => t1,
    };
    let t3 = match crate::log_lines::spec_level_info(line) {
        Some((uid, id)) => TrackerView { pending_level_uid: Some(uid), pending_level_id: id, ..t2 },
        None => t2,
    };
    let (t4, a4) = if spec_is_town_line(line) {
        sp_close_run(t3, ts)
    } else {
        (t3, seq![])
    };
    let (t5, a5) = sp_map_line(t4, line, ts, maps);
    assert(t5.current_proto == t.current_proto);
    assert forall|k: int| 0 <= k < a4.len() implies !(#[trigger] a4[k] is InsertLootEvent) by {}
    assert forall|k: int| 0 <= k < a5.len() implies !(#[trigger] a5[k] is InsertLootEvent) by {}
    let t6 = match spec_proto_start(line) {
        Some(p) => TrackerView { current_proto: Some(p), ..t5 },
        None => t5,
    };
    assert(t6.current_proto != Some("PickItems"@));
    let (t7, a7) = match crate::log_lines::spec_item_update(line) {
        Some(u) => sp_item_update(t6, u, ts, line),
        None => (t6, seq![]),
    };
    assert(a7.len() == 0);
    let all = sp_consume_line(t, line, ts, maps).1;
    assert(all == a1 + a4 + a5 + a7);
    assert forall|k: int| 0 <= k < all.len() implies !(#[trigger] all[k] is InsertLootEvent) by {
        if k < a1.len() {
            assert(all[k] == a1[k]);
        } else if k < a1.len() + a4.len() {
            assert(all[k] == a4[k - a1.len()]);
        } else {
            assert(all[k] == a5[k - a1.len() - a4.len()]);
        }
    }
}

/// A town line that loads no map ends the current run: afterwards no run is
/// open, and the run that was open is reported closed at the line's time.
pub proof fn law_town_line_ends_run(t: TrackerView, line: Seq<char>, ts: Timestamp, maps: OfflineMapsView)
    requires
        spec_is_town_line(line),
        spec_map_code(line) is None,
    ensures
        sp_consume_line(t, line, ts, maps).0.current_run is None,
        t.current_run matches Some(r) ==> exists|k: int|
            0 <= k < sp_consume_line(t, line, ts, maps).1.len() && #[trigger] sp_consume_line(
                t,
                line,
                ts,
                maps,
            ).1[k] == (ActionView::CloseRun { run_id: r.id, ended_at: ts }),
{
    let (t1, a1) = sp_price_line(t, line);
    assert(t1.current_run == t.current_run);
    let all = sp_consume_line(t, line, ts, maps).1;
    match t.current_run {
        Some(r) => {
            assert(all[a1.len() as int] == (ActionView::CloseRun { run_id: r.id, ended_at: ts }));
        },
        None => {},
    }
}

/// Loading the map of the current run again, at the same difficulty,
/// continues that run: nothing changes and nothing is recorded.
pub proof fn law_same_map_continues_run(
    t: TrackerView,
    map_name_ko: Seq<char>,
    area_lv: Option<i64>,
    ts: Timestamp,
)
    requires
        t.current_run is Some,
    ensures
        sp_open_run(
            t,
            t.current_run.unwrap().map_code,
            map_name_ko,
            t.current_run.unwrap().difficulty,
            area_lv,
            ts,
        ) == (t, Seq::<ActionView>::empty()),
{
}

/// The announced `AreaLv` decides the difficulty before the `LevelUid`
/// prefix does.
pub proof fn law_area_lv_before_level_uid(t: TrackerView)
    ensures
        t.pending_area_lv matches Some(a) ==> sp_run_area_lv(t) == Some(a),
        t.pending_area_lv is None ==> sp_run_area_lv(t) == crate::log_lines::spec_area_lv_from_level_uid(
            t.pending_level_uid,
        ),
{
}

/// An item change remembers the stack size it reports, under the item's key,
/// and leaves every other remembered stack as it was.
pub proof fn law_item_change_sets_stack(t: TrackerView, u: ItemUpdateView, ts: Timestamp, raw_line: Seq<char>)
    ensures
        sp_item_update(t, u, ts, raw_line).0.inventory_totals == t.inventory_totals.insert(
            spec_inventory_key(u),
            u.bag_num,
        ),
{
}

/// Reading a chunk loses nothing at its end: the text kept for the next read
/// is the tail of the pending text and the chunk, holds no line break, and
/// is all of it when no line was completed.
pub proof fn law_chunk_tail_kept(fragment: Seq<char>, chunk: Seq<char>)
    ensures
        ({
            let content = fragment + chunk;
            let rest = spec_take_chunk(fragment, chunk).1;
            &&& rest.len() <= content.len()
            &&& rest == content.skip(content.len() - rest.len())
            &&& forall|k: int| 0 <= k < rest.len() ==> rest[k] != '\n'
            &&& (forall|k: int| 0 <= k < content.len() ==> content[k] != '\n') ==> {
                &&& spec_take_chunk(fragment, chunk).0.len() == 0
                &&& rest == content
            }
        }),
{
    let content = fragment + chunk;
    lemma_rfind_char_before(content, '\n', content.len() as int);
    if content.len() > 0 && content.last() == '\n' {
        assert(content.skip(content.len() as int) =~= seq![]);
    } else {
        match rfind_char(content, '\n') {
            Some(i) => {
                assert(content[i] == '\n');
            },
            None => {
                assert(content.skip(0) =~= content);
            },
        }
    }
}

/// Two texts are the same up to ASCII case: reflexive, symmetric and
/// transitive.
pub proof fn law_case_insensitive_equality(a: Seq<char>, b: Seq<char>, c: Seq<char>)
    ensures
        eq_ignore_ascii_case(a, a),
        eq_ignore_ascii_case(a, b) ==> eq_ignore_ascii_case(b, a),
        eq_ignore_ascii_case(a, b) && eq_ignore_ascii_case(b, c) ==> eq_ignore_ascii_case(a, c),
{
    if eq_ignore_ascii_case(a, b) && eq_ignore_ascii_case(b, c) {
        assert forall|i: int| 0 <= i < a.len() implies ascii_lower(#[trigger] a[i]) == ascii_lower(c[i]) by {
            assert(ascii_lower(a[i]) == ascii_lower(b[i]));
            assert(ascii_lower(b[i]) == ascii_lower(c[i]));
        }
    }
}

/// No two paths are the same up to ASCII case.
pub open spec fn no_case_repeats(s: Seq<Seq<char>>) -> bool {
    forall|i: int, j: int| 0 <= i < j < s.len() ==> !eq_ignore_ascii_case(#[trigger] s[i], #[trigger] s[j])
}

/// Collecting paths without repeats keeps what was collected, in place, and
/// never holds two paths that are the same up to ASCII case.
pub proof fn law_unique_paths(acc: Seq<Seq<char>>, props: Seq<Seq<char>>)
    requires
        no_case_repeats(acc),
    ensures
        no_case_repeats(unique_fold(acc, props)),
        acc.len() <= unique_fold(acc, props).len(),
        unique_fold(acc, props).take(acc.len() as int) == acc,
    decreases props.len(),
{
    if props.len() > 0 {
        let next = push_unique(acc, props[0]);
        if !(exists|i: int| 0 <= i < acc.len() && eq_ignore_ascii_case(#[trigger] acc[i], props[0])) {
            assert forall|i: int, j: int| 0 <= i < j < next.len() implies !eq_ignore_ascii_case(
                #[trigger] next[i],
                #[trigger] next[j],
            ) by {
                if j == acc.len() {
                    assert(next[i] == acc[i]);
                    assert(!eq_ignore_ascii_case(acc[i], props[0]));
                } else {
                    assert(next[i] == acc[i] && next[j] == acc[j]);
                }
            }
        }
        law_unique_paths(next, props.drop_first());
        assert(next.take(acc.len() as int) =~= acc);
        assert(unique_fold(acc, props).take(acc.len() as int) =~= unique_fold(next, props.drop_first()).take(
            next.len() as int,
        ).take(acc.len() as int));
    }
}

/// No two candidates name the same path up to ASCII case.
pub open spec fn no_candidate_repeats(s: Seq<(Seq<char>, Seq<char>)>) -> bool {
    forall|i: int, j: int|
        0 <= i < j < s.len() ==> !eq_ignore_ascii_case(#[trigger] s[i].1, #[trigger] s[j].1)
}

/// Collecting game-log candidates never lists one path twice (up to ASCII
/// case), and keeps the candidates already listed, in place.
pub proof fn law_unique_candidates(acc: Seq<(Seq<char>, Seq<char>)>, props: Seq<(Seq<char>, Seq<char>)>)
    requires
        no_candidate_repeats(acc),
    ensures
        no_candidate_repeats(candidate_fold(acc, props)),
        acc.len() <= candidate_fold(acc, props).len(),
        candidate_fold(acc, props).take(acc.len() as int) == acc,
    decreases props.len(),
{
    if props.len() > 0 {
        let next = push_candidate(acc, props[0]);
        if !(exists|i: int| 0 <= i < acc.len() && eq_ignore_ascii_case(#[trigger] acc[i].1, props[0].1)) {
            assert forall|i: int, j: int| 0 <= i < j < next.len() implies !eq_ignore_ascii_case(
                #[trigger] next[i].1,
                #[trigger] next[j].1,
            ) by {
                if j == acc.len() {
                    assert(next[i] == acc[i]);
                    assert(!eq_ignore_ascii_case(acc[i].1, props[0].1));
                } else {
                    assert(next[i] == acc[i] && next[j] == acc[j]);
                }
            }
        }
        law_unique_candidates(next, props.drop_first());
        assert(next.take(acc.len() as int) =~= acc);
        assert(candidate_fold(acc, props).take(acc.len() as int) =~= candidate_fold(
            next,
            props.drop_first(),
        ).take(next.len() as int).take(acc.len() as int));
    }
}

/// A non-crystal item the user excluded.
pub open spec fn is_ignored_item(ignored: Seq<i64>) -> spec_fn(LootEvent) -> bool {
    |e: LootEvent| e.config_base_id != CRYSTAL_BASE_ID && ignored.contains(e.config_base_id)
}

/// Every loot event falls in exactly one of four kinds: crystal, ignored,
/// priced, or unpriced.
pub proof fn law_loot_kinds_partition(loot: Seq<LootEvent>, priced: Seq<i64>, ignored: Seq<i64>)
    ensures
        count_where(loot, is_crystal()) + count_where(loot, is_ignored_item(ignored)) + events_where(
            loot,
            is_priced(priced, ignored),
        ).len() + count_where(loot, is_unpriced(priced, ignored)) == loot.len(),
    decreases loot.len(),
{
    if loot.len() > 0 {
        law_loot_kinds_partition(loot.drop_last(), priced, ignored);
    }
}

/// In a one-shot reading of a log, a new crystal total adds to the run only
/// while items are being picked up, and a run's crystal never goes down.
pub proof fn law_parsed_crystal_only_grows_while_picking(p: ParseView, total: i64)
    ensures
        p.current_proto != Some("PickItems"@) ==> ps_crystal_total(p, total).current_run
            == p.current_run,
        (p.current_run is Some && ps_crystal_total(p, total).current_run is Some) ==> ps_crystal_total(
            p,
            total,
        ).current_run.unwrap().crystal >= p.current_run.unwrap().crystal,
        ps_crystal_total(p, total).last_crystal_total == Some(total),
{
}

/// A price search is matched by its `SynId`: the end of a request message
/// files the request under the id it started with, and the end of a response
/// message hands out the response under its own id with all its lines.
pub proof fn law_price_messages_pair_by_syn_id(t: TrackerView, line: Seq<char>)
    requires
        spec_message_start(line, "SendMessage"@) is None,
        spec_message_start(line, "RecvMessage"@) is None,
    ensures
        (contains(line, "----Socket SendMessage End----"@) && t.active_price_send is Some) ==> {
            let b = t.active_price_send.unwrap();
            &&& sp_price_line(t, line).0.pending_price_requests == t.pending_price_requests.insert(
                b.syn_id,
                PriceRequest { refer_base_id: spec_refer_base_id(b.lines) },
            )
            &&& sp_price_line(t, line).0.active_price_send is None
        },
        (!contains(line, "----Socket SendMessage End----"@) && contains(
            line,
            "----Socket RecvMessage End----"@,
        ) && t.active_price_recv is Some) ==> {
            let b = t.active_price_recv.unwrap();
            &&& sp_price_line(t, line).1 == seq![
                ActionView::PriceResponseReady { syn_id: b.syn_id, lines: b.lines },
            ]
            &&& sp_price_line(t, line).0.active_price_recv is None
            &&& sp_price_line(t, line).0.pending_price_requests == t.pending_price_requests
        },
{
}

/// A failed write of a closed run drops that run: no run is open and the
/// finished runs are as they were.
pub proof fn law_failed_close_drops_run(t: TrackerView)
    requires
        t.current_run is Some,
    ensures
        sp_close_fallbacks(t).len() == 1,
        sp_close_fallbacks(t)[0].current_run is None,
        sp_close_fallbacks(t)[0].completed_runs == t.completed_runs,
{
}

/// A failed write of a new run leaves no run open, with the id handed out.
pub proof fn law_failed_insert_opens_nothing(
    t: TrackerView,
    map_code: Seq<char>,
    map_name_ko: Seq<char>,
    difficulty: Seq<char>,
    area_lv: Option<i64>,
    ts: Timestamp,
)
    ensures
        sp_open_fallbacks(t, map_code, difficulty, ts).len() == sp_open_run(
            t,
            map_code,
            map_name_ko,
            difficulty,
            area_lv,
            ts,
        ).1.len(),
        sp_open_fallbacks(t, map_code, difficulty, ts).len() > 0 ==> {
            let f = sp_open_fallbacks(t, map_code, difficulty, ts).last();
            &&& f.current_run is None
            &&& f.next_run_id == sp_open_run(t, map_code, map_name_ko, difficulty, area_lv, ts).0.next_run_id
        },
{
}

/// A failed loot write leaves the runs as they were; the stack size is still
/// remembered.
pub proof fn law_failed_loot_write_adds_nothing(t: TrackerView, u: ItemUpdateView, ts: Timestamp, raw_line: Seq<char>)
    ensures
        sp_item_fallbacks(t, u).len() == sp_item_update(t, u, ts, raw_line).1.len(),
        sp_item_fallbacks(t, u).len() > 0 ==> {
            &&& same_runs(sp_item_fallbacks(t, u)[0], t)
            &&& sp_item_fallbacks(t, u)[0].inventory_totals == t.inventory_totals.insert(
                spec_inventory_key(u),
                u.bag_num,
            )
        },
{
}

/// Each record of a line comes with the state its failed write leaves.
pub proof fn law_one_fallback_per_record(t: TrackerView, line: Seq<char>, ts: Timestamp, maps: OfflineMapsView)
    ensures
        sp_consume_fallbacks(t, line, ts, maps).len() == sp_consume_line(t, line, ts, maps).1.len(),
{
}

/// The bookkeeping of a read: where it stands in the file, the tail kept,
/// the idle count, the last open error, the line count and the log path.
pub open spec fn same_read_fields(a: TrackerView, b: TrackerView) -> bool {
    &&& a.offset == b.offset
    &&& a.pending_fragment == b.pending_fragment
    &&& a.idle_poll_count == b.idle_poll_count
    &&& a.last_log_open_error == b.last_log_open_error
    &&& a.line_number == b.line_number
    &&& a.log_path == b.log_path
}

proof fn lemma_line_keeps_read_fields(t: TrackerView, line: Seq<char>, ts: Timestamp, maps: OfflineMapsView)
    ensures
        same_read_fields(sp_consume_line(t, line, ts, maps).0, t),
{
    let (t1, a1) = sp_price_line(t, line);
    assert(same_read_fields(t1, t));
    let t2 = match crate::log_lines::spec_area_lv(line) {
        Some(a) => TrackerView { pending_area_lv: Some(a), ..t1 },
        None => t1,
    };
    let t3 = match crate::log_lines::spec_level_info(line) {
        Some((uid, id)) => TrackerView { pending_level_uid: Some(uid), pending_level_id: id, ..t2 },
        None => t2,
    };
    let (t4, a4) = if spec_is_town_line(line) {
        sp_close_run(t3, ts)
    } else {
        (t3, seq![])
    };
    assert(same_read_fields(t4, t));
    let (t5, a5) = sp_map_line(t4, line, ts, maps);
    assert(same_read_fields(t5, t));
    let t6 = match spec_proto_start(line) {
        Some(p) => TrackerView { current_proto: Some(p), ..t5 },
        None => t5,
    };
    let (t7, a7) = match crate::log_lines::spec_item_update(line) {
        Some(u) => sp_item_update(t6, u, ts, line),
        None => (t6, seq![]),
    };
    assert(same_read_fields(t7, t));
}

/// The lines of a read applied in order, each counted and stamped with
/// `stamps[i]`.
pub open spec fn sp_consume_lines(
    t: TrackerView,
    lines: Seq<Seq<char>>,
    stamps: Seq<Timestamp>,
    maps: OfflineMapsView,
) -> TrackerView
    decreases lines.len(),
{
    if lines.len() == 0 {
        t
    } else {
        sp_consume_lines(
            sp_consume_line(counted_view(t), lines[0], stamps[0], maps).0,
            lines.drop_first(),
            stamps.drop_first(),
            maps,
        )
    }
}

/// `n` plus `k`, held at `i64::MAX`.
pub open spec fn add_lines(n: i64, k: nat) -> i64 {
    if n + k <= i64::MAX {
        (n + k) as i64
    } else {
        i64::MAX
    }
}

proof fn lemma_consume_lines_fields(
    t: TrackerView,
    lines: Seq<Seq<char>>,
    stamps: Seq<Timestamp>,
    maps: OfflineMapsView,
)
    ensures
        ({
            let r = sp_consume_lines(t, lines, stamps, maps);
            &&& r.offset == t.offset
            &&& r.pending_fragment == t.pending_fragment
            &&& r.idle_poll_count == t.idle_poll_count
            &&& r.last_log_open_error == t.last_log_open_error
            &&& r.log_path == t.log_path
            &&& r.line_number == add_lines(t.line_number, lines.len())
        }),
    decreases lines.len(),
{
    if lines.len() > 0 {
        let c = counted_view(t);
        lemma_line_keeps_read_fields(c, lines[0], stamps[0], maps);
        let t1 = sp_consume_line(c, lines[0], stamps[0], maps).0;
        lemma_consume_lines_fields(t1, lines.drop_first(), stamps.drop_first(), maps);
        assert(t1.line_number == next_line_number(t.line_number));
    }
}

/// One read of the log, as the tracker's steps perform it: the log opened
/// (clearing a remembered open error), is `len` bytes long (shorter than the
/// read offset means it was truncated and is read from its start), and
/// yields `chunk` up to byte `end_offset`; each complete line is then
/// counted and applied with the stamp in `stamps`.
pub open spec fn sp_read(
    t: TrackerView,
    len: u64,
    chunk: Seq<char>,
    end_offset: u64,
    stamps: Seq<Timestamp>,
    maps: OfflineMapsView,
) -> TrackerView {
    let t0 = TrackerView { last_log_open_error: None, ..t };
    let t1 = if len < t0.offset {
        TrackerView { offset: 0, pending_fragment: seq![], ..t0 }
    } else {
        t0
    };
    if chunk.len() == 0 {
        TrackerView {
            offset: end_offset,
            idle_poll_count: if t1.idle_poll_count < u64::MAX {
                (t1.idle_poll_count + 1) as u64
            } else {
                u64::MAX
            },
            ..t1
        }
    } else {
        let (lines, rest) = spec_take_chunk(t1.pending_fragment, chunk);
        sp_consume_lines(
            TrackerView { offset: end_offset, idle_poll_count: 0, pending_fragment: rest, ..t1 },
            lines,
            stamps,
            maps,
        )
    }
}

/// What a whole read leaves: the offset at the end of what was read, no
/// open error, an idle count that grows only when nothing new was read, the
/// unterminated tail kept (the pending text and the chunk are the completed
/// text, empty or ending in a line break, followed by that tail), and one
/// more counted line for each completed line.
pub proof fn law_read_bookkeeping(
    t: TrackerView,
    len: u64,
    chunk: Seq<char>,
    end_offset: u64,
    stamps: Seq<Timestamp>,
    maps: OfflineMapsView,
)
    ensures
        ({
            let r = sp_read(t, len, chunk, end_offset, stamps, maps);
            let fragment = if len < t.offset { Seq::<char>::empty() } else { t.pending_fragment };
            let content = fragment + chunk;
            let (lines, rest) = spec_take_chunk(fragment, chunk);
            let done = content.take(content.len() - rest.len());
            &&& r.offset == end_offset
            &&& r.last_log_open_error is None
            &&& r.log_path == t.log_path
            &&& chunk.len() == 0 ==> {
                &&& r.idle_poll_count == if t.idle_poll_count < u64::MAX {
                    (t.idle_poll_count + 1) as u64
                } else {
                    u64::MAX
                }
                &&& r.pending_fragment == fragment
                &&& r.line_number == t.line_number
            }
            &&& chunk.len() > 0 ==> {
                &&& r.idle_poll_count == 0
                &&& r.pending_fragment == rest
                &&& content == done + rest
                &&& (done.len() == 0 || done.last() == '\n')
                &&& forall|k: int| 0 <= k < rest.len() ==> rest[k] != '\n'
                &&& r.line_number == add_lines(t.line_number, lines.len())
            }
        }),
{
    let t0 = TrackerView { last_log_open_error: None, ..t };
    let t1 = if len < t0.offset {
        TrackerView { offset: 0, pending_fragment: seq![], ..t0 }
    } else {
        t0
    };
    if chunk.len() > 0 {
        let fragment = t1.pending_fragment;
        let (lines, rest) = spec_take_chunk(fragment, chunk);
        let start = TrackerView { offset: end_offset, idle_poll_count: 0, pending_fragment: rest, ..t1 };
        lemma_consume_lines_fields(start, lines, stamps, maps);
        law_chunk_tail_kept(fragment, chunk);
        let content = fragment + chunk;
        let done = content.take(content.len() - rest.len());
        assert(content =~= done + rest);
        lemma_rfind_char_before(content, '\n', content.len() as int);
        if content.len() > 0 && content.last() == '\n' {
        } else {
            match rfind_char(content, '\n') {
                Some(i) => {
                    assert(rest.len() == content.len() - (i + 1));
                    assert(done.last() == content[i]);
                },
                None => {},
            }
        }
    }
}

/// The lines a read completes are one per line break of the completed text,
/// when that text holds no empty line (an empty line just before a kept tail
/// is not handed out as a line).
pub proof fn law_read_counts_line_breaks(fragment: Seq<char>, chunk: Seq<char>)
    ensures
        ({
            let content = fragment + chunk;
            let (lines, rest) = spec_take_chunk(fragment, chunk);
            let done = content.take(content.len() - rest.len());
            (forall|k: int|
                0 <= k < done.len() && #[trigger] done[k] == '\n' ==> k > 0 && done[k - 1] != '\n')
                ==> lines.len() == newline_count(done)
        }),
{
    let content = fragment + chunk;
    let (lines, rest) = spec_take_chunk(fragment, chunk);
    law_chunk_tail_kept(fragment, chunk);
    let done = content.take(content.len() - rest.len());
    lemma_rfind_char_before(content, '\n', content.len() as int);
    if content.len() > 0 && content.last() == '\n' {
        law_line_count(content);
        assert(done =~= content);
        assert(lines.len() == newline_count(done));
    } else {
        match rfind_char(content, '\n') {
            Some(i) => {
                assert(rest.len() == content.len() - (i + 1));
                assert(done.last() == content[i]);
                let complete = content.take(i);
                law_line_count(complete);
                assert(done =~= complete + seq!['\n']);
                lemma_newline_count_add(complete, seq!['\n']);
                assert(newline_count(seq!['\n']) == 1) by {
                    reveal_with_fuel(newline_count, 2);
                    assert(seq!['\n'].drop_last() =~= Seq::<char>::empty());
                }
                if forall|k: int|
                    0 <= k < done.len() && #[trigger] done[k] == '\n' ==> k > 0 && done[k - 1]
                        != '\n' {
                    assert(done[i] == '\n');
                    assert(complete.last() == done[i - 1]);
                    assert(lines.len() == newline_count(done));
                }
            },
            None => {
                assert(done =~= Seq::<char>::empty());
                assert(lines.len() == newline_count(done));
            },
        }
    }
}

/// The price steps of `lines`, in order.
pub open spec fn price_fold(t: TrackerView, lines: Seq<Seq<char>>) -> TrackerView
    decreases lines.len(),
{
    if lines.len() == 0 {
        t
    } else {
        price_fold(sp_price_line(t, lines[0]).0, lines.drop_first())
    }
}

/// A line that neither starts nor ends a price message.
pub open spec fn plain_price_line(line: Seq<char>) -> bool {
    &&& spec_message_start(line, "SendMessage"@) is None
    &&& spec_message_start(line, "RecvMessage"@) is None
    &&& !contains(line, "----Socket SendMessage End----"@)
    &&& !contains(line, "----Socket RecvMessage End----"@)
}

proof fn lemma_plain_lines_join_request(t: TrackerView, ms: Seq<Seq<char>>, s: Seq<char>, ls: Seq<Seq<char>>)
    requires
        t.active_price_send == Some(BlockView { syn_id: s, lines: ls }),
        forall|k: int| 0 <= k < ms.len() ==> plain_price_line(#[trigger] ms[k]),
    ensures
        price_fold(t, ms).active_price_send == Some(BlockView { syn_id: s, lines: ls + ms }),
        price_fold(t, ms).pending_price_requests == t.pending_price_requests,
    decreases ms.len(),
{
    if ms.len() == 0 {
        assert(ls + ms =~= ls);
    } else {
        assert(plain_price_line(ms[0]));
        let t1 = sp_price_line(t, ms[0]).0;
        assert(t1.active_price_send == Some(BlockView { syn_id: s, lines: ls.push(ms[0]) }));
        assert forall|k: int| 0 <= k < ms.drop_first().len() implies plain_price_line(
            #[trigger] ms.drop_first()[k],
        ) by {
            assert(ms.drop_first()[k] == ms[k + 1]);
        }
        lemma_plain_lines_join_request(t1, ms.drop_first(), s, ls.push(ms[0]));
        assert(ls.push(ms[0]) + ms.drop_first() =~= ls + ms);
    }
}

/// A request message read line by line is filed under its `SynId` with the
/// item its lines refer to: its start line, plain lines, then its end line.
pub proof fn law_request_collects_its_lines(
    t: TrackerView,
    first: Seq<char>,
    middle: Seq<Seq<char>>,
    last: Seq<char>,
)
    requires
        spec_message_start(first, "SendMessage"@) is Some,
        forall|k: int| 0 <= k < middle.len() ==> plain_price_line(#[trigger] middle[k]),
        spec_message_start(last, "SendMessage"@) is None,
        spec_message_start(last, "RecvMessage"@) is None,
        contains(last, "----Socket SendMessage End----"@),
    ensures
        ({
            let r = price_fold(t, seq![first] + middle + seq![last]);
            let s = spec_message_start(first, "SendMessage"@).unwrap();
            &&& r.pending_price_requests.contains_key(s)
            &&& r.pending_price_requests[s] == (PriceRequest {
                refer_base_id: spec_refer_base_id(seq![first] + middle),
            })
            &&& r.active_price_send is None
        }),
{
    let s = spec_message_start(first, "SendMessage"@).unwrap();
    let all = seq![first] + middle + seq![last];
    let t1 = sp_price_line(t, first).0;
    assert(t1.active_price_send == Some(BlockView { syn_id: s, lines: seq![first] }));
    lemma_plain_lines_join_request(t1, middle, s, seq![first]);
    let t2 = price_fold(t1, middle);
    lemma_price_fold_split(t, seq![first], middle + seq![last]);
    lemma_price_fold_split(t1, middle, seq![last]);
    assert(all =~= seq![first] + (middle + seq![last]));
    assert(price_fold(t2, seq![last]) == sp_price_line(t2, last).0) by {
        reveal_with_fuel(price_fold, 2);
        assert(seq![last].drop_first() =~= Seq::<Seq<char>>::empty());
    }
    assert(price_fold(t, seq![first]) == t1) by {
        reveal_with_fuel(price_fold, 2);
        assert(seq![first].drop_first() =~= Seq::<Seq<char>>::empty());
    }
}

proof fn lemma_price_fold_split(t: TrackerView, a: Seq<Seq<char>>, b: Seq<Seq<char>>)
    ensures
        price_fold(t, a + b) == price_fold(price_fold(t, a), b),
    decreases a.len(),
{
    if a.len() == 0 {
        assert(a + b =~= b);
    } else {
        assert((a + b).drop_first() =~= a.drop_first() + b);
        lemma_price_fold_split(sp_price_line(t, a[0]).0, a.drop_first(), b);
    }
}

/// A gain while picking items up during a run is added to that run's loot,
/// and is the one record of the item change.
pub proof fn law_gain_while_picking_is_loot(t: TrackerView, u: ItemUpdateView, ts: Timestamp, raw_line: Seq<char>)
    requires
        sp_gain(t, u) is Some,
        t.current_proto == Some("PickItems"@),
        t.current_run is Some,
    ensures
        ({
            let out = sp_item_update(t, u, ts, raw_line);
            let run = t.current_run.unwrap();
            let d = sp_gain(t, u).unwrap();
            &&& out.0.current_run is Some
            &&& out.0.current_run.unwrap().loot == run.loot.push(
                LootEvent { config_base_id: u.config_base_id, quantity: d as i64 },
            )
            &&& out.0.current_run.unwrap().id == run.id
            &&& out.0.completed_runs == t.completed_runs
            &&& out.1.len() == 1
            &&& out.1[0] is InsertLootEvent
        }),
{
}

/// Entering a map other than the current run's (or at another difficulty)
/// closes the current run and opens a new one with the next id, started and
/// last seen now, with no loot.
pub proof fn law_new_map_opens_run(
    t: TrackerView,
    map_code: Seq<char>,
    map_name_ko: Seq<char>,
    difficulty: Seq<char>,
    area_lv: Option<i64>,
    ts: Timestamp,
)
    requires
        t.next_run_id < i64::MAX,
        t.current_run matches Some(r) ==> (r.map_code != map_code || r.difficulty != difficulty),
    ensures
        ({
            let out = sp_open_run(t, map_code, map_name_ko, difficulty, area_lv, ts).0;
            &&& out.current_run == Some(RunView {
                id: t.next_run_id,
                map_code,
                map_name_ko,
                difficulty,
                started_at: ts,
                last_seen_at: ts,
                ended_at: None,
                loot: seq![],
            })
            &&& out.next_run_id == t.next_run_id + 1
            &&& out.completed_runs == sp_close_run(t, ts).0.completed_runs
        }),
{
}

/// Closing a run in a one-shot reading of a log: no run stays open; a run
/// that lasted a second or more, or found crystal, is recorded with the next
/// id, its duration up to the closing time (or, without one, its last-seen
/// time) and its crystal; only a run with no duration and no crystal is
/// dropped.
pub proof fn law_parsed_close_records_run(p: ParseView, ts: Option<Timestamp>)
    ensures
        ps_close_run(p, ts).current_run is None,
        p.current_run is None ==> ps_close_run(p, ts).completed_runs == p.completed_runs,
        p.current_run matches Some(run) ==> {
            let end = match ts {
                Some(t) => Some(t),
                None => run.last_seen_at,
            };
            let d = spec_duration_seconds_opt(run.started_at, end);
            &&& (d != 0 || run.crystal != 0) ==> ps_close_run(p, ts).completed_runs
                == p.completed_runs.push(
                SummaryView {
                    id: p.next_run_id,
                    map_name_ko: run.map_name_ko,
                    difficulty: run.difficulty,
                    duration_seconds: d as i64,
                    crystal: run.crystal,
                },
            )
            &&& (d == 0 && run.crystal == 0) ==> ps_close_run(p, ts).completed_runs
                == p.completed_runs
        },
{
}

/// A stamped town line that loads no map, read while a run is open, ends the
/// run; when the run lasted a second or more up to that line, it is recorded
/// with that duration.
pub proof fn law_parsed_town_line_records_run(p: ParseView, line: Seq<char>, ts: Timestamp, maps: OfflineMapsView)
    requires
        spec_is_town_line(line),
        spec_map_code(line) is None,
        spec_parse_timestamp(line) == Some(ts),
        p.current_run is Some,
        spec_duration_seconds_opt(p.current_run.unwrap().started_at, Some(ts)) > 0,
    ensures
        ({
            let run = p.current_run.unwrap();
            let out = ps_consume_line(p, line, maps);
            &&& out.current_run is None
            &&& out.completed_runs.len() == p.completed_runs.len() + 1
            &&& out.completed_runs.last() == (SummaryView {
                id: p.next_run_id,
                map_name_ko: run.map_name_ko,
                difficulty: run.difficulty,
                duration_seconds: spec_duration_seconds_opt(run.started_at, Some(ts)) as i64,
                crystal: run.crystal,
            })
        }),
{
    let run = p.current_run.unwrap();
    let p2 = match crate::log_lines::spec_area_lv(line) {
        Some(a) => ParseView { pending_area_lv: Some(a), ..p },
        None => p,
    };
    let p3 = match crate::log_lines::spec_level_info(line) {
        Some((uid, id)) => ParseView { pending_level_uid: Some(uid), pending_level_id: id, ..p2 },
        None => p2,
    };
    assert(p3.current_run == p.current_run);
    assert(p3.completed_runs == p.completed_runs);
    assert(p3.next_run_id == p.next_run_id);
    let p4 = ps_close_run(p3, Some(ts));
    assert(p4.completed_runs == p.completed_runs.push(
        SummaryView {
            id: p.next_run_id,
            map_name_ko: run.map_name_ko,
            difficulty: run.difficulty,
            duration_seconds: spec_duration_seconds_opt(run.started_at, Some(ts)) as i64,
            crystal: run.crystal,
        },
    ));
}

/// After a stamped line, a run still open was last seen at that line's time,
/// so the open run's elapsed time reaches the last stamped line.
pub proof fn law_parsed_run_last_seen_at_stamp(p: ParseView, line: Seq<char>, ts: Timestamp, maps: OfflineMapsView)
    requires
        spec_parse_timestamp(line) == Some(ts),
    ensures
        ps_consume_line(p, line, maps).current_run matches Some(run) ==> run.last_seen_at == Some(ts),
{
}

/// The game log chosen is the first candidate, in order of preference, that
/// exists; the default path only when none does.
pub proof fn law_first_existing_candidate(cs: Seq<(Seq<char>, Seq<char>)>, exists: Seq<bool>)
    requires
        exists.len() == cs.len(),
    ensures
        forall|i: int|
            0 <= i < cs.len() && exists[i] && (forall|j: int| 0 <= j < i ==> !exists[j]) ==> spec_resolve(
                cs,
                exists,
            ) == #[trigger] cs[i].1,
        (forall|j: int| 0 <= j < cs.len() ==> !exists[j]) ==> spec_resolve(cs, exists)
            == spec_default_log_path(),
    decreases cs.len(),
{
    if cs.len() > 0 {
        law_first_existing_candidate(cs.drop_first(), exists.drop_first());
        assert forall|i: int|
            0 <= i < cs.len() && exists[i] && (forall|j: int| 0 <= j < i ==> !exists[j]) implies spec_resolve(
            cs,
            exists,
        ) == #[trigger] cs[i].1 by {
            if i > 0 {
                assert(!exists[0]);
                assert(cs.drop_first()[i - 1] == cs[i]);
                assert(exists.drop_first()[i - 1]);
                assert forall|j: int| 0 <= j < i - 1 implies !exists.drop_first()[j] by {
                    assert(!exists[j + 1]);
                }
            }
        }
        if forall|j: int| 0 <= j < cs.len() ==> !exists[j] {
            assert(!exists[0]);
            assert forall|j: int| 0 <= j < cs.drop_first().len() implies !exists.drop_first()[j] by {
                assert(!exists[j + 1]);
            }
        }
    }
}

} // verus!
