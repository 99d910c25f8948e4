//! The tracker's reading of the game log: runs opened by map loads and
//! closed in town, loot picked up during runs, and exchange price queries.
//!
//! `LogTracker` holds the state; each log line moves it one step and yields
//! the records that the application stores.

use vstd::prelude::*;
use crate::clock::{Timestamp, duration_seconds, now, parse_timestamp, spec_duration_seconds, spec_parse_timestamp};
use crate::log_lines::{
    CRYSTAL_BASE_ID, ItemChangeKind, ItemUpdateView, area_lv_chars, area_lv_from_level_uid,
    difficulty_from_area_lv, is_proto_end_chars, is_town_line_chars, is_town_map_code_chars,
    item_update_chars, level_info_chars, map_code_chars, message_start_chars, proto_start_chars,
    spec_area_lv, spec_area_lv_from_level_uid, spec_difficulty, spec_inventory_delta,
    spec_inventory_key, spec_is_proto_end, spec_is_town_line, spec_is_town_map_code,
    spec_item_update, spec_level_info, spec_map_code, spec_message_start, spec_proto_start,
    ItemUpdate,
};
use crate::offline::{OfflineMaps, OfflineMapsView, spec_map_name_from_code};
use crate::price::{PriceRequest, copy_strings, parse_price_request, spec_refer_base_id, strs};
use crate::strmap::StrMap;
use crate::text::{
    chars_eq, chars_of, contains, contains_exec, opt_str, rfind_char, rfind_char_exec,
    lemma_rfind_char_before, spec_lines, split_lines, str_views, string_from, copy_range, concat,
    newline_count, open_tail, law_line_count,
};
use crate::log_lines::spec_item_update as item_update_of;
use crate::price::PriceResponse;
use crate::ignored::IgnoredItems;

verus! {

broadcast use vstd::seq_lib::group_seq_properties;

/// Items gained during a run.
#[derive(Clone, Copy, Debug, PartialEq, Eq, Structural)]
pub struct LootEvent {
    pub config_base_id: i64,
    pub quantity: i64,
}

/// A run: one stay in a map at one difficulty.
pub struct RunState {
    pub id: i64,
    pub map_code: String,
    pub map_name_ko: String,
    pub difficulty: String,
    pub started_at: Timestamp,
    pub last_seen_at: Timestamp,
    pub ended_at: Option<Timestamp>,
    pub loot: Vec<LootEvent>,
}

#[verifier::ext_equal]
pub struct RunView {
    pub id: i64,
    pub map_code: Seq<char>,
    pub map_name_ko: Seq<char>,
    pub difficulty: Seq<char>,
    pub started_at: Timestamp,
    pub last_seen_at: Timestamp,
    pub ended_at: Option<Timestamp>,
    pub loot: Seq<LootEvent>,
}

impl View for RunState {
    type V = RunView;

    open spec fn view(&self) -> RunView {
        RunView {
            id: self.id,
            map_code: self.map_code@,
            map_name_ko: self.map_name_ko@,
            difficulty: self.difficulty@,
            started_at: self.started_at,
            last_seen_at: self.last_seen_at,
            ended_at: self.ended_at,
            loot: self.loot@,
        }
    }
}

pub open spec fn opt_run(r: Option<RunState>) -> Option<RunView> {
    match r {
        Some(run) => Some(run@),
        None => None,
    }
}

pub open spec fn run_views(s: Seq<RunState>) -> Seq<RunView> {
    s.map_values(|r: RunState| r@)
}

/// The lines of a price-search message seen so far.
pub struct MessageBlock {
    pub syn_id: String,
    pub lines: Vec<String>,
}

#[verifier::ext_equal]
pub struct BlockView {
    pub syn_id: Seq<char>,
    pub lines: Seq<Seq<char>>,
}

pub open spec fn opt_block(b: Option<MessageBlock>) -> Option<BlockView> {
    match b {
        Some(b) => Some(BlockView { syn_id: b.syn_id@, lines: strs(b.lines@) }),
        None => None,
    }
}

/// A record for the application to store.
pub enum StoreAction {
    /// A run was opened.
    InsertRun {
        run_id: i64,
        started_at: Timestamp,
        map_code: String,
        map_name_ko: String,
        difficulty: String,
        area_lv: Option<i64>,
        level_uid: Option<String>,
    },
    /// A run was closed.
    CloseRun { run_id: i64, ended_at: Timestamp },
    /// Loot was picked up during a run.
    InsertLootEvent {
        run_id: i64,
        occurred_at: Timestamp,
        line_number: i64,
        proto_name: String,
        config_base_id: i64,
        item_instance_id: Option<String>,
        quantity: i64,
        page_id: Option<i64>,
        slot_id: Option<i64>,
        raw_line: String,
    },
    /// A price-search response is complete; its lines await pricing.
    PriceResponseReady { syn_id: String, lines: Vec<String> },
}

pub enum ActionView {
    InsertRun {
        run_id: i64,
        started_at: Timestamp,
        map_code: Seq<char>,
        map_name_ko: Seq<char>,
        difficulty: Seq<char>,
        area_lv: Option<i64>,
        level_uid: Option<Seq<char>>,
    },
    CloseRun { run_id: i64, ended_at: Timestamp },
    InsertLootEvent {
        run_id: i64,
        occurred_at: Timestamp,
        line_number: i64,
        proto_name: Seq<char>,
        config_base_id: i64,
        item_instance_id: Option<Seq<char>>,
        quantity: i64,
        page_id: Option<i64>,
        slot_id: Option<i64>,
        raw_line: Seq<char>,
    },
    PriceResponseReady { syn_id: Seq<char>, lines: Seq<Seq<char>> },
}

impl View for StoreAction {
    type V = ActionView;

    open spec fn view(&self) -> ActionView {
        match self {
            StoreAction::InsertRun {
                run_id,
                started_at,
                map_code,
                map_name_ko,
                difficulty,
                area_lv,
                level_uid,
            } => ActionView::InsertRun {
                run_id: *run_id,
                started_at: *started_at,
                map_code: map_code@,
                map_name_ko: map_name_ko@,
                difficulty: difficulty@,
                area_lv: *area_lv,
                level_uid: opt_str(*level_uid),
            },
            StoreAction::CloseRun { run_id, ended_at } => ActionView::CloseRun {
                run_id: *run_id,
                ended_at: *ended_at,
            },
            StoreAction::InsertLootEvent {
                run_id,
                occurred_at,
                line_number,
                proto_name,
                config_base_id,
                item_instance_id,
                quantity,
                page_id,
                slot_id,
                raw_line,
            } => ActionView::InsertLootEvent {
                run_id: *run_id,
                occurred_at: *occurred_at,
                line_number: *line_number,
                proto_name: proto_name@,
                config_base_id: *config_base_id,
                item_instance_id: opt_str(*item_instance_id),
                quantity: *quantity,
                page_id: *page_id,
                slot_id: *slot_id,
                raw_line: raw_line@,
            },
            StoreAction::PriceResponseReady { syn_id, lines } => ActionView::PriceResponseReady {
                syn_id: syn_id@,
                lines: strs(lines@),
            },
        }
    }
}

/// A record to store, and the state the tracker is to be left in when storing
/// it fails: the state at the moment the write is due, with the rest of the
/// line not applied.
pub struct StoreStep {
    pub action: StoreAction,
    pub on_failure: LogTracker,
}

pub open spec fn action_views(s: Seq<StoreStep>) -> Seq<ActionView> {
    s.map_values(|a: StoreStep| a.action@)
}

pub open spec fn failure_views(s: Seq<StoreStep>) -> Seq<TrackerView> {
    s.map_values(|a: StoreStep| a.on_failure@)
}

/// What the debug panel shows about the tracker.
pub struct TrackerDebugInfo {
    pub game_log_path: String,
    pub game_log_exists: bool,
    pub game_log_size: Option<u64>,
    pub read_offset: u64,
    pub line_number: i64,
    pub idle_poll_count: u64,
    pub current_proto: Option<String>,
    pub active_run: bool,
    pub current_map: Option<String>,
    pub last_error: Option<String>,
    pub last_activity: String,
}

/// The log-reading state of the tracker.
pub struct LogTracker {
    log_path: String,
    offset: u64,
    pending_fragment: String,
    idle_poll_count: u64,
    last_log_open_error: Option<String>,
    line_number: i64,
    current_run: Option<RunState>,
    completed_runs: Vec<RunState>,
    current_proto: Option<String>,
    pending_area_lv: Option<i64>,
    pending_level_uid: Option<String>,
    pending_level_id: Option<String>,
    inventory_totals: StrMap<i64>,
    active_price_send: Option<MessageBlock>,
    active_price_recv: Option<MessageBlock>,
    pending_price_requests: StrMap<PriceRequest>,
    next_run_id: i64,
    ignored_item_ids: IgnoredItems,
}

#[verifier::ext_equal]
pub struct TrackerView {
    pub log_path: Seq<char>,
    pub offset: u64,
    pub pending_fragment: Seq<char>,
    pub idle_poll_count: u64,
    pub last_log_open_error: Option<Seq<char>>,
    pub line_number: i64,
    pub current_run: Option<RunView>,
    pub completed_runs: Seq<RunView>,
    pub current_proto: Option<Seq<char>>,
    pub pending_area_lv: Option<i64>,
    pub pending_level_uid: Option<Seq<char>>,
    pub pending_level_id: Option<Seq<char>>,
    pub inventory_totals: Map<Seq<char>, i64>,
    pub active_price_send: Option<BlockView>,
    pub active_price_recv: Option<BlockView>,
    pub pending_price_requests: Map<Seq<char>, PriceRequest>,
    pub next_run_id: i64,
    pub ignored_item_ids: Set<i64>,
}

impl View for LogTracker {
    type V = TrackerView;

    closed spec fn view(&self) -> TrackerView {
        TrackerView {
            log_path: self.log_path@,
            offset: self.offset,
            pending_fragment: self.pending_fragment@,
            idle_poll_count: self.idle_poll_count,
            last_log_open_error: opt_str(self.last_log_open_error),
            line_number: self.line_number,
            current_run: opt_run(self.current_run),
            completed_runs: run_views(self.completed_runs@),
            current_proto: opt_str(self.current_proto),
            pending_area_lv: self.pending_area_lv,
            pending_level_uid: opt_str(self.pending_level_uid),
            pending_level_id: opt_str(self.pending_level_id),
            inventory_totals: self.inventory_totals@,
            active_price_send: opt_block(self.active_price_send),
            active_price_recv: opt_block(self.active_price_recv),
            pending_price_requests: self.pending_price_requests@,
            next_run_id: self.next_run_id,
            ignored_item_ids: self.ignored_item_ids@,
        }
    }
}

// ---------------------------------------------------------------------------
// The step relation
// ---------------------------------------------------------------------------

/// The state a fresh session starts in.
pub open spec fn initial_view(log_path: Seq<char>) -> TrackerView {
    TrackerView {
        log_path,
        offset: 0,
        pending_fragment: seq![],
        idle_poll_count: 0,
        last_log_open_error: None,
        line_number: 0,
        current_run: None,
        completed_runs: seq![],
        current_proto: None,
        pending_area_lv: None,
        pending_level_uid: None,
        pending_level_id: None,
        inventory_totals: Map::empty(),
        active_price_send: None,
        active_price_recv: None,
        pending_price_requests: Map::empty(),
        next_run_id: 1,
        ignored_item_ids: Set::empty(),
    }
}

/// The run id after `id` (held at `i64::MAX`).
pub open spec fn next_id(id: i64) -> i64 {
    if id < i64::MAX {
        (id + 1) as i64
    } else {
        id
    }
}

/// Closing the current run at `ts`: it ends, and it is kept when it lasted at
/// least a second or holds loot.
pub open spec fn sp_close_run(t: TrackerView, ts: Timestamp) -> (TrackerView, Seq<ActionView>) {
    match t.current_run {
        None => (t, seq![]),
        Some(run) => {
            let ended = RunView { ended_at: Some(ts), ..run };
            let keep = spec_duration_seconds(run.started_at, ts) > 0 || run.loot.len() > 0;
            (
                TrackerView {
                    current_run: None,
                    completed_runs: if keep {
                        t.completed_runs.push(ended)
                    } else {
                        t.completed_runs
                    },
                    ..t
                },
                seq![ActionView::CloseRun { run_id: run.id, ended_at: ts }],
            )
        },
    }
}

/// Entering a map: a new run starts unless the current run is in the same
/// map at the same difficulty.
pub open spec fn sp_open_run(
    t: TrackerView,
    map_code: Seq<char>,
    map_name_ko: Seq<char>,
    difficulty: Seq<char>,
    area_lv: Option<i64>,
    ts: Timestamp,
) -> (TrackerView, Seq<ActionView>) {
    let start_new = match t.current_run {
        Some(run) => run.map_code != map_code || run.difficulty != difficulty,
        None => true,
    };
    if !start_new {
        (t, seq![])
    } else {
        let (t1, a1) = sp_close_run(t, ts);
        let id = t1.next_run_id;
        (
            TrackerView {
                next_run_id: next_id(id),
                current_run: Some(
                    RunView {
                        id,
                        map_code,
                        map_name_ko,
                        difficulty,
                        started_at: ts,
                        last_seen_at: ts,
                        ended_at: None,
                        loot: seq![],
                    },
                ),
                ..t1
            },
            a1.push(
                ActionView::InsertRun {
                    run_id: id,
                    started_at: ts,
                    map_code,
                    map_name_ko,
                    difficulty,
                    area_lv,
                    level_uid: t.pending_level_uid,
                },
            ),
        )
    }
}

/// The gain an item change records, when it fits an `i64`.
pub open spec fn sp_gain(t: TrackerView, u: ItemUpdateView) -> Option<int> {
    let key = spec_inventory_key(u);
    let prev = if t.inventory_totals.contains_key(key) {
        Some(t.inventory_totals[key])
    } else {
        None
    };
    match spec_inventory_delta(u.change_kind, prev, u.bag_num) {
        Some(d) => if d <= i64::MAX {
            Some(d)
        } else {
            None
        },
        None => None,
    }
}

/// An item change: the stack size is remembered, and a gain counts as loot
/// when it happens while picking items up during a run.
pub open spec fn sp_item_update(t: TrackerView, u: ItemUpdateView, ts: Timestamp, raw_line: Seq<
    char,
>) -> (TrackerView, Seq<ActionView>) {
    let t1 = TrackerView {
        inventory_totals: t.inventory_totals.insert(spec_inventory_key(u), u.bag_num),
        ..t
    };
    match sp_gain(t, u) {
        None => (t1, seq![]),
        Some(d) => if t.current_proto != Some("PickItems"@) {
            (t1, seq![])
        } else {
            match t.current_run {
                None => (t1, seq![]),
                Some(run) => (
                    TrackerView {
                        current_run: Some(
                            RunView {
                                loot: run.loot.push(
                                    LootEvent { config_base_id: u.config_base_id, quantity: d as i64 },
                                ),
                                ..run
                            },
                        ),
                        ..t1
                    },
                    seq![
                        ActionView::InsertLootEvent {
                            run_id: run.id,
                            occurred_at: ts,
                            line_number: t.line_number,
                            proto_name: "PickItems"@,
                            config_base_id: u.config_base_id,
                            item_instance_id: u.item_instance_id,
                            quantity: d as i64,
                            page_id: u.page_id,
                            slot_id: u.slot_id,
                            raw_line,
                        },
                    ],
                ),
            }
        }
    }
}

pub open spec fn push_block_line(b: Option<BlockView>, line: Seq<char>) -> Option<BlockView> {
    match b {
        Some(b) => Some(BlockView { syn_id: b.syn_id, lines: b.lines.push(line) }),
        None => None,
    }
}

/// Price-search messages: a start line opens a block, an end line completes
/// it, and other lines join the open blocks.
pub open spec fn sp_price_line(t: TrackerView, line: Seq<char>) -> (TrackerView, Seq<ActionView>) {
    match spec_message_start(line, "SendMessage"@) {
        Some(syn) => (
            TrackerView {
                active_price_send: Some(BlockView { syn_id: syn, lines: seq![line] }),
                ..t
            },
            seq![],
        ),
        None => match spec_message_start(line, "RecvMessage"@) {
            Some(syn) => (
                TrackerView {
                    active_price_recv: Some(BlockView { syn_id: syn, lines: seq![line] }),
                    ..t
                },
                seq![],
            ),
            None => if contains(line, "----Socket SendMessage End----"@) {
                match t.active_price_send {
                    Some(b) => (
                        TrackerView {
                            active_price_send: None,
                            pending_price_requests: t.pending_price_requests.insert(
                                b.syn_id,
                                PriceRequest { refer_base_id: spec_refer_base_id(b.lines) },
                            ),
                            ..t
                        },
                        seq![],
                    ),
                    None => (t, seq![]),
                }
            } else if contains(line, "----Socket RecvMessage End----"@) {
                match t.active_price_recv {
                    Some(b) => (
                        TrackerView { active_price_recv: None, ..t },
                        seq![ActionView::PriceResponseReady { syn_id: b.syn_id, lines: b.lines }],
                    ),
                    None => (t, seq![]),
                }
            } else {
                (
                    TrackerView {
                        active_price_send: push_block_line(t.active_price_send, line),
                        active_price_recv: push_block_line(t.active_price_recv, line),
                        ..t
                    },
                    seq![],
                )
            },
        },
    }
}

/// The area level used for a run: the last announced one, else the one the
/// level UID carries.
pub open spec fn sp_run_area_lv(t: TrackerView) -> Option<i64> {
    match t.pending_area_lv {
        Some(a) => Some(a),
        None => spec_area_lv_from_level_uid(t.pending_level_uid),
    }
}

/// Map loads outside town open a run.
pub open spec fn sp_map_line(t: TrackerView, line: Seq<char>, ts: Timestamp, maps: OfflineMapsView) -> (
    TrackerView,
    Seq<ActionView>,
) {
    match spec_map_code(line) {
        Some(code) => if !spec_is_town_map_code(code) {
            let area_lv = sp_run_area_lv(t);
            sp_open_run(
                t,
                code,
                spec_map_name_from_code(maps, code, t.pending_level_id),
                spec_difficulty(area_lv),
                area_lv,
                ts,
            )
        } else {
            (t, seq![])
        },
        None => (t, seq![]),
    }
}

/// The whole effect of one log line stamped `ts`.
pub open spec fn sp_consume_line(
    t: TrackerView,
    line: Seq<char>,
    ts: Timestamp,
    maps: OfflineMapsView,
) -> (TrackerView, Seq<ActionView>) {
    let (t1, a1) = sp_price_line(t, line);
    let t2 = match spec_area_lv(line) {
        Some(a) => TrackerView { pending_area_lv: Some(a), ..t1 },
        None => t1,
    };
    let t3 = match spec_level_info(line) {
        Some((uid, id)) => TrackerView { pending_level_uid: Some(uid), pending_level_id: id, ..t2 },
        None => t2,
    };
    let (t4, a4) = if spec_is_town_line(line) {
        sp_close_run(t3, ts)
    } else {
        (t3, seq![])
    };
    let (t5, a5) = sp_map_line(t4, line, ts, maps);
    let t6 = match spec_proto_start(line) {
        Some(p) => TrackerView { current_proto: Some(p), ..t5 },
        None => t5,
    };
    let (t7, a7) = match spec_item_update(line) {
        Some(u) => sp_item_update(t6, u, ts, line),
        None => (t6, seq![]),
    };
    let t8 = if spec_is_proto_end(line) {
        TrackerView { current_proto: None, ..t7 }
    } else {
        t7
    };
    let t9 = match t8.current_run {
        Some(r) => TrackerView { current_run: Some(RunView { last_seen_at: ts, ..r }), ..t8 },
        None => t8,
    };
    (t9, a1 + a4 + a5 + a7)
}


/// Where a failed close leaves the tracker: the run is taken out and not
/// kept.
pub open spec fn sp_close_fallbacks(t: TrackerView) -> Seq<TrackerView> {
    match t.current_run {
        None => seq![],
        Some(_) => seq![TrackerView { current_run: None, ..t }],
    }
}

/// Where failed writes of a map entry leave the tracker: a failed close as
/// above; a failed insert with the id handed out and no run open.
pub open spec fn sp_open_fallbacks(
    t: TrackerView,
    map_code: Seq<char>,
    difficulty: Seq<char>,
    ts: Timestamp,
) -> Seq<TrackerView> {
    let start_new = match t.current_run {
        Some(run) => run.map_code != map_code || run.difficulty != difficulty,
        None => true,
    };
    if !start_new {
        seq![]
    } else {
        let t1 = sp_close_run(t, ts).0;
        sp_close_fallbacks(t).push(TrackerView { next_run_id: next_id(t1.next_run_id), ..t1 })
    }
}

/// Where a failed loot write leaves the tracker: the stack size is
/// remembered, the loot is not added.
pub open spec fn sp_item_fallbacks(t: TrackerView, u: ItemUpdateView) -> Seq<TrackerView> {
    let t1 = TrackerView {
        inventory_totals: t.inventory_totals.insert(spec_inventory_key(u), u.bag_num),
        ..t
    };
    if sp_gain(t, u) is Some && t.current_proto == Some("PickItems"@) && t.current_run is Some {
        seq![t1]
    } else {
        seq![]
    }
}

/// Where a failed price write leaves the tracker: after the price step.
pub open spec fn sp_price_fallbacks(t: TrackerView, line: Seq<char>) -> Seq<TrackerView> {
    if sp_price_line(t, line).1.len() > 0 {
        seq![sp_price_line(t, line).0]
    } else {
        seq![]
    }
}

pub open spec fn sp_map_fallbacks(t: TrackerView, line: Seq<char>, maps: OfflineMapsView, ts: Timestamp) -> Seq<
    TrackerView,
> {
    match spec_map_code(line) {
        Some(code) => if !spec_is_town_map_code(code) {
            sp_open_fallbacks(t, code, spec_difficulty(sp_run_area_lv(t)), ts)
        } else {
            seq![]
        },
        None => seq![],
    }
}

/// For each record of a line, in order, the state a failed write of it
/// leaves: what the line did up to that write.
pub open spec fn sp_consume_fallbacks(
    t: TrackerView,
    line: Seq<char>,
    ts: Timestamp,
    maps: OfflineMapsView,
) -> Seq<TrackerView> {
    let (t1, a1) = sp_price_line(t, line);
    let t2 = match spec_area_lv(line) {
        Some(a) => TrackerView { pending_area_lv: Some(a), ..t1 },
        None => t1,
    };
    let t3 = match spec_level_info(line) {
        Some((uid, id)) => TrackerView { pending_level_uid: Some(uid), pending_level_id: id, ..t2 },
        None => t2,
    };
    let (t4, f4) = if spec_is_town_line(line) {
        (sp_close_run(t3, ts).0, sp_close_fallbacks(t3))
    } else {
        (t3, seq![])
    };
    let t5 = sp_map_line(t4, line, ts, maps).0;
    let t6 = match spec_proto_start(line) {
        Some(p) => TrackerView { current_proto: Some(p), ..t5 },
        None => t5,
    };
    let f7 = match spec_item_update(line) {
        Some(u) => sp_item_fallbacks(t6, u),
        None => seq![],
    };
    sp_price_fallbacks(t, line) + f4 + sp_map_fallbacks(t4, line, maps, ts) + f7
}

/// `line_number` after one more line.
pub open spec fn next_line_number(n: i64) -> i64 {
    if n < i64::MAX {
        (n + 1) as i64
    } else {
        n
    }
}

/// The state with one more line counted.
pub open spec fn counted_view(t: TrackerView) -> TrackerView {
    TrackerView { line_number: next_line_number(t.line_number), ..t }
}

/// The line count after `n` lines from zero.
pub open spec fn capped_line_count(n: nat) -> i64 {
    if n <= i64::MAX {
        n as i64
    } else {
        i64::MAX
    }
}

/// Stack sizes after reading `lines`: each item change sets its key.
pub open spec fn baseline_totals(lines: Seq<Seq<char>>) -> Map<Seq<char>, i64>
    decreases lines.len(),
{
    if lines.len() == 0 {
        Map::empty()
    } else {
        let m = baseline_totals(lines.drop_last());
        match item_update_of(lines.last()) {
            Some(u) => m.insert(spec_inventory_key(u), u.bag_num),
            None => m,
        }
    }
}

/// How many of `lines` are item changes.
pub open spec fn item_update_count(lines: Seq<Seq<char>>) -> nat
    decreases lines.len(),
{
    if lines.len() == 0 {
        0
    } else {
        item_update_count(lines.drop_last()) + if item_update_of(lines.last()) is Some {
            1nat
        } else {
            0nat
        }
    }
}

/// The complete lines of the pending tail plus a new chunk, and the tail
/// left over for the next read.
pub open spec fn spec_take_chunk(fragment: Seq<char>, chunk: Seq<char>) -> (Seq<Seq<char>>, Seq<char>) {
    let content = fragment + chunk;
    if content.len() > 0 && content.last() == '\n' {
        (spec_lines(content), seq![])
    } else {
        match rfind_char(content, '\n') {
            Some(i) => (spec_lines(content.take(i)), content.skip(i + 1)),
            None => (seq![], content),
        }
    }
}

// ---------------------------------------------------------------------------
// Executable steps
// ---------------------------------------------------------------------------

fn clone_opt_string(o: &Option<String>) -> (r: Option<String>)
    ensures
        opt_str(r) == opt_str(*o),
{
    match o {
        Some(s) => Some(s.clone()),
        None => None,
    }
}

fn push_step(actions: &mut Vec<StoreStep>, a: StoreAction, on_failure: LogTracker)
    ensures
        action_views(final(actions)@) == action_views(old(actions)@).push(a@),
        failure_views(final(actions)@) == failure_views(old(actions)@).push(on_failure@),
{
    let ghost a_view = a@;
    let ghost f_view = on_failure@;
    actions.push(StoreStep { action: a, on_failure });
    assert(action_views(final(actions)@) =~= action_views(old(actions)@).push(a_view));
    assert(failure_views(final(actions)@) =~= failure_views(old(actions)@).push(f_view));
}

fn copy_loot(loot: &Vec<LootEvent>) -> (r: Vec<LootEvent>)
    ensures
        r@ == loot@,
{
    let mut r: Vec<LootEvent> = Vec::new();
    let mut i: usize = 0;
    while i < loot.len()
        invariant
            i <= loot@.len(),
            r@ == loot@.take(i as int),
        decreases loot@.len() - i,
    {
        r.push(loot[i]);
        assert(loot@.take(i + 1) =~= loot@.take(i as int).push(loot@[i as int]));
        i += 1;
    }
    assert(loot@.take(loot@.len() as int) =~= loot@);
    r
}

fn copy_run(run: &RunState) -> (r: RunState)
    ensures
        r@ == run@,
{
    RunState {
        id: run.id,
        map_code: run.map_code.clone(),
        map_name_ko: run.map_name_ko.clone(),
        difficulty: run.difficulty.clone(),
        started_at: run.started_at,
        last_seen_at: run.last_seen_at,
        ended_at: run.ended_at,
        loot: copy_loot(&run.loot),
    }
}

fn copy_opt_run(run: &Option<RunState>) -> (r: Option<RunState>)
    ensures
        opt_run(r) == opt_run(*run),
{
    match run {
        Some(x) => Some(copy_run(x)),
        None => None,
    }
}

fn copy_runs(runs: &Vec<RunState>) -> (r: Vec<RunState>)
    ensures
        run_views(r@) == run_views(runs@),
{
    let mut r: Vec<RunState> = Vec::new();
    let mut i: usize = 0;
    while i < runs.len()
        invariant
            i <= runs@.len(),
            run_views(r@) == run_views(runs@).take(i as int),
        decreases runs@.len() - i,
    {
        let ghost before = r@;
        r.push(copy_run(&runs[i]));
        assert(run_views(r@) =~= run_views(before).push(runs@[i as int]@));
        assert(run_views(runs@).take(i + 1) =~= run_views(runs@).take(i as int).push(runs@[i as int]@));
        i += 1;
    }
    assert(run_views(runs@).take(runs@.len() as int) =~= run_views(runs@));
    r
}

fn copy_block(b: &Option<MessageBlock>) -> (r: Option<MessageBlock>)
    ensures
        opt_block(r) == opt_block(*b),
{
    match b {
        Some(x) => Some(MessageBlock { syn_id: x.syn_id.clone(), lines: copy_strings(&x.lines) }),
        None => None,
    }
}

fn is_pick_items(proto: &Option<String>) -> (b: bool)
    ensures
        b == (opt_str(*proto) == Some("PickItems"@)),
{
    match proto {
        Some(p) => {
            let pc = chars_of(p.as_str());
            let pk = chars_of("PickItems");
            chars_eq(pc.as_slice(), pk.as_slice())
        },
        None => false,
    }
}

impl LogTracker {
    /// A tracker with an empty session for the game log at `log_path`.
    pub fn new(log_path: String) -> (r: LogTracker)
        ensures
            r@ == initial_view(log_path@),
    {
        let r = LogTracker {
            log_path,
            offset: 0,
            pending_fragment: String::new(),
            idle_poll_count: 0,
            last_log_open_error: None,
            line_number: 0,
            current_run: None,
            completed_runs: Vec::new(),
            current_proto: None,
            pending_area_lv: None,
            pending_level_uid: None,
            pending_level_id: None,
            inventory_totals: StrMap::new(),
            active_price_send: None,
            active_price_recv: None,
            pending_price_requests: StrMap::new(),
            next_run_id: 1,
            ignored_item_ids: IgnoredItems::new(),
        };
        assert(r@ =~= initial_view(log_path@));
        r
    }

    /// The game log this tracker reads.
    pub fn game_log_path(&self) -> (r: &String)
        ensures
            r@ == self@.log_path,
    {
        &self.log_path
    }

    /// A copy of the whole state.
    pub fn copy_state(&self) -> (r: LogTracker)
        ensures
            r@ == self@,
    {
        let r = LogTracker {
            log_path: self.log_path.clone(),
            offset: self.offset,
            pending_fragment: self.pending_fragment.clone(),
            idle_poll_count: self.idle_poll_count,
            last_log_open_error: clone_opt_string(&self.last_log_open_error),
            line_number: self.line_number,
            current_run: copy_opt_run(&self.current_run),
            completed_runs: copy_runs(&self.completed_runs),
            current_proto: clone_opt_string(&self.current_proto),
            pending_area_lv: self.pending_area_lv,
            pending_level_uid: clone_opt_string(&self.pending_level_uid),
            pending_level_id: clone_opt_string(&self.pending_level_id),
            inventory_totals: self.inventory_totals.copy(),
            active_price_send: copy_block(&self.active_price_send),
            active_price_recv: copy_block(&self.active_price_recv),
            pending_price_requests: self.pending_price_requests.copy(),
            next_run_id: self.next_run_id,
            ignored_item_ids: self.ignored_item_ids.copy(),
        };
        assert(r@ =~= self@);
        r
    }

    fn close_current_run(&mut self, ts: Timestamp, actions: &mut Vec<StoreStep>)
        ensures
            final(self)@ == sp_close_run(old(self)@, ts).0,
            action_views(final(actions)@) == action_views(old(actions)@) + sp_close_run(
                old(self)@,
                ts,
            ).1,
            failure_views(final(actions)@) == failure_views(old(actions)@) + sp_close_fallbacks(
                old(self)@,
            ),
    {
        match self.current_run.take() {
            None => {
                assert(action_views(old(actions)@) + seq![] =~= action_views(old(actions)@));
                assert(failure_views(old(actions)@) + seq![] =~= failure_views(old(actions)@));
                assert(self@ =~= old(self)@);
            },
            Some(mut run) => {
                run.ended_at = Some(ts);
                let fallback = self.copy_state();
                assert(fallback@ =~= (TrackerView { current_run: None, ..old(self)@ }));
                push_step(actions, StoreAction::CloseRun { run_id: run.id, ended_at: ts }, fallback);
                let keep = duration_seconds(run.started_at, ts) > 0 || run.loot.len() > 0;
                if keep {
                    let ghost prev = self.completed_runs@;
                    let ghost rv = run@;
                    self.completed_runs.push(run);
                    assert(run_views(self.completed_runs@) =~= run_views(prev).push(rv));
                }
                assert(self@ =~= sp_close_run(old(self)@, ts).0);
            },
        }
    }

    fn open_run(
        &mut self,
        map_code: String,
        map_name_ko: String,
        difficulty: String,
        area_lv: Option<i64>,
        ts: Timestamp,
        actions: &mut Vec<StoreStep>,
    )
        ensures
            final(self)@ == sp_open_run(
                old(self)@,
                map_code@,
                map_name_ko@,
                difficulty@,
                area_lv,
                ts,
            ).0,
            action_views(final(actions)@) == action_views(old(actions)@) + sp_open_run(
                old(self)@,
                map_code@,
                map_name_ko@,
                difficulty@,
                area_lv,
                ts,
            ).1,
            failure_views(final(actions)@) == failure_views(old(actions)@) + sp_open_fallbacks(
                old(self)@,
                map_code@,
                difficulty@,
                ts,
            ),
    {
        let start_new = match &self.current_run {
            Some(run) => {
                let a = chars_of(run.map_code.as_str());
                let b = chars_of(map_code.as_str());
                let c = chars_of(run.difficulty.as_str());
                let d = chars_of(difficulty.as_str());
                !chars_eq(a.as_slice(), b.as_slice()) || !chars_eq(c.as_slice(), d.as_slice())
            },
            None => true,
        };
        if !start_new {
            assert(action_views(old(actions)@) + seq![] =~= action_views(old(actions)@));
            assert(failure_views(old(actions)@) + seq![] =~= failure_views(old(actions)@));
            return;
        }
        let ghost a0 = action_views(actions@);
        let ghost f0 = failure_views(actions@);
        let level_uid = clone_opt_string(&self.pending_level_uid);
        self.close_current_run(ts, actions);
        let ghost a1 = action_views(actions@);
        let run_id = self.next_run_id;
        if self.next_run_id < i64::MAX {
            self.next_run_id = self.next_run_id + 1;
        }
        let fallback = self.copy_state();
        push_step(
            actions,
            StoreAction::InsertRun {
                run_id,
                started_at: ts,
                map_code: map_code.clone(),
                map_name_ko: map_name_ko.clone(),
                difficulty: difficulty.clone(),
                area_lv,
                level_uid,
            },
            fallback,
        );
        self.current_run = Some(
            RunState {
                id: run_id,
                map_code,
                map_name_ko,
                difficulty,
                started_at: ts,
                last_seen_at: ts,
                ended_at: None,
                loot: Vec::new(),
            },
        );
        proof {
            let sp = sp_open_run(old(self)@, map_code@, map_name_ko@, difficulty@, area_lv, ts);
            assert(self@ =~= sp.0);
            assert(action_views(actions@) =~= a0 + sp.1);
            assert(failure_views(actions@) =~= f0 + sp_open_fallbacks(old(self)@, map_code@, difficulty@, ts));
        }
    }

    fn consume_item_update(
        &mut self,
        u: ItemUpdate,
        ts: Timestamp,
        raw_line: &str,
        actions: &mut Vec<StoreStep>,
    )
        ensures
            final(self)@ == sp_item_update(old(self)@, u@, ts, raw_line@).0,
            action_views(final(actions)@) == action_views(old(actions)@) + sp_item_update(
                old(self)@,
                u@,
                ts,
                raw_line@,
            ).1,
            failure_views(final(actions)@) == failure_views(old(actions)@) + sp_item_fallbacks(
                old(self)@,
                u@,
            ),
    {
        let key = u.inventory_key();
        let previous = self.inventory_totals.insert(key, u.bag_num);
        let gain = match (u.change_kind, previous) {
            (ItemChangeKind::Update, Some(p)) => {
                let d = u.bag_num as i128 - p as i128;
                if d > i64::MAX as i128 || d < i64::MIN as i128 {
                    None
                } else {
                    crate::log_lines::inventory_delta(u.change_kind, previous, u.bag_num)
                }
            },
            _ => crate::log_lines::inventory_delta(u.change_kind, previous, u.bag_num),
        };
        let ghost sp = sp_item_update(old(self)@, u@, ts, raw_line@);
        let delta = match gain {
            Some(d) => d,
            None => {
                assert(self@ =~= sp.0);
                assert(action_views(old(actions)@) + seq![] =~= action_views(old(actions)@));
                assert(failure_views(old(actions)@) + seq![] =~= failure_views(old(actions)@));
                return;
            },
        };
        if !is_pick_items(&self.current_proto) || self.current_run.is_none() {
            assert(self@ =~= sp.0);
            assert(action_views(old(actions)@) + seq![] =~= action_views(old(actions)@));
            assert(failure_views(old(actions)@) + seq![] =~= failure_views(old(actions)@));
            return;
        }
        let fallback = self.copy_state();
        assert(seq![fallback@] =~= sp_item_fallbacks(old(self)@, u@));
        match self.current_run.take() {
            None => {},
            Some(mut run) => {
                push_step(
                    actions,
                    StoreAction::InsertLootEvent {
                        run_id: run.id,
                        occurred_at: ts,
                        line_number: self.line_number,
                        proto_name: "PickItems".to_owned(),
                        config_base_id: u.config_base_id,
                        item_instance_id: clone_opt_string(&u.item_instance_id),
                        quantity: delta,
                        page_id: u.page_id,
                        slot_id: u.slot_id,
                        raw_line: raw_line.to_owned(),
                    },
                    fallback,
                );
                run.loot.push(LootEvent { config_base_id: u.config_base_id, quantity: delta });
                self.current_run = Some(run);
                assert(self@ =~= sp.0);
                assert(action_views(actions@) =~= action_views(old(actions)@) + sp.1);
            },
        }
    }

    fn consume_price_line(&mut self, line: &[char], line_str: &str, actions: &mut Vec<StoreStep>)
        requires
            line@ == line_str@,
        ensures
            final(self)@ == sp_price_line(old(self)@, line@).0,
            action_views(final(actions)@) == action_views(old(actions)@) + sp_price_line(
                old(self)@,
                line@,
            ).1,
            failure_views(final(actions)@) == failure_views(old(actions)@) + sp_price_fallbacks(
                old(self)@,
                line@,
            ),
    {
        let ghost sp = sp_price_line(old(self)@, line@);
        let send = chars_of("SendMessage");
        let recv = chars_of("RecvMessage");
        if let Some(syn) = message_start_chars(line, send.as_slice()) {
            let mut lines = Vec::new();
            lines.push(line_str.to_owned());
            assert(strs(lines@) =~= seq![line@]);
            self.active_price_send = Some(
                MessageBlock { syn_id: string_from(syn.as_slice()), lines },
            );
            assert(self@ =~= sp.0);
            assert(action_views(old(actions)@) + seq![] =~= action_views(old(actions)@));
            assert(failure_views(old(actions)@) + seq![] =~= failure_views(old(actions)@));
            return;
        }
        if let Some(syn) = message_start_chars(line, recv.as_slice()) {
            let mut lines = Vec::new();
            lines.push(line_str.to_owned());
            assert(strs(lines@) =~= seq![line@]);
            self.active_price_recv = Some(
                MessageBlock { syn_id: string_from(syn.as_slice()), lines },
            );
            assert(self@ =~= sp.0);
            assert(action_views(old(actions)@) + seq![] =~= action_views(old(actions)@));
            assert(failure_views(old(actions)@) + seq![] =~= failure_views(old(actions)@));
            return;
        }
        let send_end = chars_of("----Socket SendMessage End----");
        if contains_exec(line, send_end.as_slice()) {
            if let Some(block) = self.active_price_send.take() {
                let request = parse_price_request(&block.lines);
                self.pending_price_requests.insert(block.syn_id, request);
            }
            assert(self@ =~= sp.0);
            assert(action_views(old(actions)@) + seq![] =~= action_views(old(actions)@));
            assert(failure_views(old(actions)@) + seq![] =~= failure_views(old(actions)@));
            return;
        }
        let recv_end = chars_of("----Socket RecvMessage End----");
        if contains_exec(line, recv_end.as_slice()) {
            match self.active_price_recv.take() {
                Some(block) => {
                    let fallback = self.copy_state();
                    assert(fallback@ =~= sp.0);
                    push_step(
                        actions,
                        StoreAction::PriceResponseReady { syn_id: block.syn_id, lines: block.lines },
                        fallback,
                    );
                    assert(action_views(actions@) =~= action_views(old(actions)@) + sp.1);
                    assert(failure_views(actions@) =~= failure_views(old(actions)@) + seq![sp.0]);
                },
                None => {
                    assert(action_views(old(actions)@) + seq![] =~= action_views(old(actions)@));
                    assert(failure_views(old(actions)@) + seq![] =~= failure_views(old(actions)@));
                },
            }
            assert(self@ =~= sp.0);
            return;
        }
        if let Some(mut block) = self.active_price_send.take() {
            let ghost l0 = block.lines@;
            block.lines.push(line_str.to_owned());
            assert(strs(block.lines@) =~= strs(l0).push(line@));
            self.active_price_send = Some(block);
        }
        if let Some(mut block) = self.active_price_recv.take() {
            let ghost l0 = block.lines@;
            block.lines.push(line_str.to_owned());
            assert(strs(block.lines@) =~= strs(l0).push(line@));
            self.active_price_recv = Some(block);
        }
        assert(self@ =~= sp.0);
        assert(action_views(old(actions)@) + seq![] =~= action_views(old(actions)@));
        assert(failure_views(old(actions)@) + seq![] =~= failure_views(old(actions)@));
    }

    fn consume_map_line(
        &mut self,
        line: &[char],
        ts: Timestamp,
        maps: &OfflineMaps,
        actions: &mut Vec<StoreStep>,
    )
        ensures
            final(self)@ == sp_map_line(old(self)@, line@, ts, maps@).0,
            action_views(final(actions)@) == action_views(old(actions)@) + sp_map_line(
                old(self)@,
                line@,
                ts,
                maps@,
            ).1,
            failure_views(final(actions)@) == failure_views(old(actions)@) + sp_map_fallbacks(
                old(self)@,
                line@,
                maps@,
                ts,
            ),
    {
        match map_code_chars(line) {
            Some(code) => {
                if !is_town_map_code_chars(code.as_slice()) {
                    let area_lv = match self.pending_area_lv {
                        Some(a) => Some(a),
                        None => match &self.pending_level_uid {
                            Some(u) => area_lv_from_level_uid(Some(u.as_str())),
                            None => area_lv_from_level_uid(None),
                        },
                    };
                    let difficulty = difficulty_from_area_lv(area_lv);
                    let code_s = string_from(code.as_slice());
                    let name = match &self.pending_level_id {
                        Some(l) => maps.map_name_from_code(code_s.as_str(), Some(l.as_str())),
                        None => maps.map_name_from_code(code_s.as_str(), None),
                    };
                    self.open_run(code_s, name, difficulty, area_lv, ts, actions);
                } else {
                    assert(action_views(old(actions)@) + seq![] =~= action_views(old(actions)@));
                    assert(failure_views(old(actions)@) + seq![] =~= failure_views(old(actions)@));
                }
            },
            None => {
                assert(action_views(old(actions)@) + seq![] =~= action_views(old(actions)@));
                assert(failure_views(old(actions)@) + seq![] =~= failure_views(old(actions)@));
            },
        }
    }

    /// Applies one log line stamped `ts`, returning the records to store.
    pub fn consume_line_at(&mut self, line: &str, ts: Timestamp, maps: &OfflineMaps) -> (r: Vec<
        StoreStep,
    >)
        ensures
            final(self)@ == sp_consume_line(old(self)@, line@, ts, maps@).0,
            action_views(r@) == sp_consume_line(old(self)@, line@, ts, maps@).1,
            failure_views(r@) == sp_consume_fallbacks(old(self)@, line@, ts, maps@),
    {
        let l = chars_of(line);
        let mut actions: Vec<StoreStep> = Vec::new();
        assert(action_views(actions@) =~= seq![]);
        assert(failure_views(actions@) =~= seq![]);
        self.consume_price_line(l.as_slice(), line, &mut actions);
        let ghost a1 = action_views(actions@);
        let ghost f1 = failure_views(actions@);
        if let Some(a) = area_lv_chars(l.as_slice()) {
            self.pending_area_lv = Some(a);
        }
        if let Some(info) = level_info_chars(l.as_slice()) {
            self.pending_level_uid = Some(info.level_uid);
            self.pending_level_id = info.level_id;
        }
        let ghost t3 = self@;
        if is_town_line_chars(l.as_slice()) {
            self.close_current_run(ts, &mut actions);
        } else {
            assert(a1 + seq![] =~= a1);
            assert(f1 + seq![] =~= f1);
        }
        let ghost a4 = action_views(actions@);
        self.consume_map_line(l.as_slice(), ts, maps, &mut actions);
        let ghost a5 = action_views(actions@);
        let ghost f5 = failure_views(actions@);
        if let Some(p) = proto_start_chars(l.as_slice()) {
            self.current_proto = Some(string_from(p.as_slice()));
        }
        match item_update_chars(l.as_slice()) {
            Some(u) => {
                self.consume_item_update(u, ts, line, &mut actions);
            },
            None => {
                assert(a5 + seq![] =~= a5);
                assert(f5 + seq![] =~= f5);
            },
        }
        if is_proto_end_chars(l.as_slice()) {
            self.current_proto = None;
        }
        if let Some(mut run) = self.current_run.take() {
            run.last_seen_at = ts;
            self.current_run = Some(run);
        }
        proof {
            let sp = sp_consume_line(old(self)@, line@, ts, maps@);
            assert(self@ =~= sp.0);
            assert(action_views(actions@) =~= sp.1);
            assert(failure_views(actions@) =~= sp_consume_fallbacks(old(self)@, line@, ts, maps@));
        }
        actions
    }

    /// Applies one log line, stamped with its own time or, failing that, the
    /// current time.
    #[verifier::spinoff_prover]
    pub fn consume_line(&mut self, line: &str, maps: &OfflineMaps) -> (r: Vec<StoreStep>)
        ensures
            exists|ts: Timestamp|
                {
                    &&& (spec_parse_timestamp(line@) is Some ==> spec_parse_timestamp(line@)
                        == Some(ts))
                    &&& final(self)@ == sp_consume_line(old(self)@, line@, ts, maps@).0
                    &&& action_views(r@) == sp_consume_line(old(self)@, line@, ts, maps@).1
                    &&& failure_views(r@) == sp_consume_fallbacks(old(self)@, line@, ts, maps@)
                },
    {
        let ts = match parse_timestamp(line) {
            Some(t) => t,
            None => now(),
        };
        self.consume_line_at(line, ts, maps)
    }

    /// Starts a read of a log that is now `len` bytes long: a log shorter
    /// than the read offset was truncated, so reading restarts at its
    /// beginning. Returns the offset to read from.
    pub fn observe_log_length(&mut self, len: u64) -> (r: u64)
        ensures
            final(self)@ == if len < old(self)@.offset {
                (TrackerView { offset: 0, pending_fragment: seq![], ..old(self)@ })
            } else {
                old(self)@
            },
            r == final(self)@.offset,
    {
        if len < self.offset {
            self.offset = 0;
            self.pending_fragment = String::new();
        }
        self.offset
    }

    /// Takes the text read up to byte `end_offset`: returns its complete
    /// lines and keeps an unterminated tail for the next read.
    pub fn take_chunk(&mut self, chunk: &str, end_offset: u64) -> (r: Vec<String>)
        ensures
            chunk@.len() == 0 ==> final(self)@ == (TrackerView {
                offset: end_offset,
                idle_poll_count: if old(self)@.idle_poll_count < u64::MAX {
                    (old(self)@.idle_poll_count + 1) as u64
                } else {
                    u64::MAX
                },
                ..old(self)@
            }) && r@.len() == 0,
            chunk@.len() > 0 ==> final(self)@ == (TrackerView {
                offset: end_offset,
                idle_poll_count: 0,
                pending_fragment: spec_take_chunk(old(self)@.pending_fragment, chunk@).1,
                ..old(self)@
            }) && str_views(r@) == spec_take_chunk(old(self)@.pending_fragment, chunk@).0,
    {
        self.offset = end_offset;
        let cc = chars_of(chunk);
        if cc.len() == 0 {
            if self.idle_poll_count < u64::MAX {
                self.idle_poll_count = self.idle_poll_count + 1;
            }
            return Vec::new();
        }
        self.idle_poll_count = 0;
        let fc = chars_of(self.pending_fragment.as_str());
        let content = concat(fc.as_slice(), cc.as_slice());
        let n = content.len();
        if content[n - 1] == '\n' {
            self.pending_fragment = String::new();
            return split_lines(content.as_slice());
        }
        match rfind_char_exec(content.as_slice(), '\n') {
            Some(i) => {
                proof {
                    lemma_rfind_char_before(content@, '\n', content@.len() as int);
                }
                let complete = copy_range(content.as_slice(), 0, i);
                let partial = copy_range(content.as_slice(), i + 1, n);
                assert(complete@ =~= content@.take(i as int));
                assert(partial@ =~= content@.skip(i + 1));
                self.pending_fragment = string_from(partial.as_slice());
                split_lines(complete.as_slice())
            },
            None => {
                self.pending_fragment = string_from(content.as_slice());
                assert(str_views(Seq::<String>::empty()) =~= seq![]);
                Vec::new()
            },
        }
    }

    /// Counts one more line read from the log and applies it.
    #[verifier::spinoff_prover]
    #[verifier::rlimit(40)]
    pub fn consume_polled_line(&mut self, line: &str, maps: &OfflineMaps) -> (r: Vec<StoreStep>)
        ensures
            exists|ts: Timestamp|
                {
                    &&& (spec_parse_timestamp(line@) is Some ==> spec_parse_timestamp(line@)
                        == Some(ts))
                    &&& final(self)@ == #[trigger] sp_consume_line(
                        counted_view(old(self)@),
                        line@,
                        ts,
                        maps@,
                    ).0
                    &&& action_views(r@) == sp_consume_line(
                        counted_view(old(self)@),
                        line@,
                        ts,
                        maps@,
                    ).1
                    &&& failure_views(r@) == sp_consume_fallbacks(
                        counted_view(old(self)@),
                        line@,
                        ts,
                        maps@,
                    )
                },
    {
        if self.line_number < i64::MAX {
            self.line_number = self.line_number + 1;
        }
        assert(self@ =~= counted_view(old(self)@));
        self.consume_line(line, maps)
    }

    /// Rebuilds the inventory baseline from the whole log (`None` when the
    /// log cannot be opened): every item change sets its stack size, nothing
    /// counts as loot. Returns the number of item changes seen.
    pub fn bootstrap_inventory_baseline(&mut self, content: Option<&str>, end_offset: u64) -> (r:
        usize)
        ensures
            content is None ==> final(self)@ == (TrackerView { offset: 0, ..old(self)@ }) && r == 0,
            content matches Some(c) ==> final(self)@ == (TrackerView {
                offset: end_offset,
                line_number: capped_line_count(spec_lines(c@).len()),
                inventory_totals: baseline_totals(spec_lines(c@)),
                ..old(self)@
            }) && r == item_update_count(spec_lines(c@)),
            content matches Some(c) ==> final(self)@.line_number == capped_line_count(
                newline_count(c@) + open_tail(c@),
            ),
    {
        let c = match content {
            None => {
                self.offset = 0;
                return 0;
            },
            Some(c) => c,
        };
        let cc = chars_of(c);
        let lines = split_lines(cc.as_slice());
        self.inventory_totals.clear();
        self.line_number = 0;
        let ghost pre = self@;
        let mut count: usize = 0;
        let mut i: usize = 0;
        while i < lines.len()
            invariant
                pre == (TrackerView { line_number: 0, inventory_totals: Map::empty(), ..old(self)@ }),
                self@ == (TrackerView {
                    line_number: self.line_number,
                    inventory_totals: self.inventory_totals@,
                    ..pre
                }),
                i <= lines@.len(),
                str_views(lines@) == spec_lines(c@),
                self.line_number == capped_line_count(i as nat),
                self.inventory_totals@ == baseline_totals(str_views(lines@).take(i as int)),
                count == item_update_count(str_views(lines@).take(i as int)),
                count <= i,
            decreases lines@.len() - i,
        {
            assert(str_views(lines@).take(i + 1).drop_last() =~= str_views(lines@).take(i as int));
            assert(str_views(lines@).take(i + 1).last() == lines@[i as int]@);
            if self.line_number < i64::MAX {
                self.line_number = self.line_number + 1;
            }
            let lc = chars_of(lines[i].as_str());
            if let Some(u) = item_update_chars(lc.as_slice()) {
                count = count + 1;
                let key = u.inventory_key();
                self.inventory_totals.insert(key, u.bag_num);
            }
            i += 1;
        }
        assert(str_views(lines@).take(lines@.len() as int) =~= str_views(lines@));
        self.offset = end_offset;
        assert(self@ =~= (TrackerView {
            offset: end_offset,
            line_number: capped_line_count(spec_lines(c@).len()),
            inventory_totals: baseline_totals(spec_lines(c@)),
            ..old(self)@
        }));
        proof {
            law_line_count(c@);
        }
        count
    }

    /// Forgets the session: runs, loot, inventory, pending messages and the
    /// read position. The ignored items are settings and stay.
    pub fn reset_session(&mut self)
        ensures
            final(self)@ == (TrackerView {
                ignored_item_ids: old(self)@.ignored_item_ids,
                ..initial_view(old(self)@.log_path)
            }),
    {
        let mut path = String::new();
        std::mem::swap(&mut path, &mut self.log_path);
        let mut ignored = IgnoredItems::new();
        std::mem::swap(&mut ignored, &mut self.ignored_item_ids);
        *self = LogTracker::new(path);
        self.ignored_item_ids = ignored;
    }

    /// Switches to another game log and starts a new session on it; the
    /// ignored items stay.
    pub fn set_log_path(&mut self, log_path: String)
        ensures
            final(self)@ == (TrackerView {
                ignored_item_ids: old(self)@.ignored_item_ids,
                ..initial_view(log_path@)
            }),
    {
        let mut ignored = IgnoredItems::new();
        std::mem::swap(&mut ignored, &mut self.ignored_item_ids);
        *self = LogTracker::new(log_path);
        self.ignored_item_ids = ignored;
    }

    /// Replaces the ignored items with those stored by the application.
    pub fn load_ignored_item_ids(&mut self, ids: &Vec<i64>)
        ensures
            final(self)@ == (TrackerView { ignored_item_ids: ids@.to_set(), ..old(self)@ }),
    {
        self.ignored_item_ids = IgnoredItems::from_ids(ids);
    }

    /// Marks an item ignored or counted again. Crystal cannot be ignored:
    /// asking for it is an error and changes nothing.
    pub fn set_item_ignored(&mut self, config_base_id: i64, ignored: bool) -> (r: Result<(), String>)
        ensures
            (config_base_id == CRYSTAL_BASE_ID && ignored) ==> {
                &&& r matches Err(e) && e@ == "crystal cannot be ignored"@
                &&& final(self)@ == old(self)@
            },
            !(config_base_id == CRYSTAL_BASE_ID && ignored) ==> {
                &&& r is Ok
                &&& final(self)@ == (TrackerView {
                    ignored_item_ids: if ignored {
                        old(self)@.ignored_item_ids.insert(config_base_id)
                    } else {
                        old(self)@.ignored_item_ids.remove(config_base_id)
                    },
                    ..old(self)@
                })
            },
            !old(self)@.ignored_item_ids.contains(CRYSTAL_BASE_ID)
                ==> !final(self)@.ignored_item_ids.contains(CRYSTAL_BASE_ID),
    {
        self.ignored_item_ids.set_item_ignored(config_base_id, ignored)
    }

    /// The ignored items, each once.
    pub fn ignored_item_ids(&self) -> (r: Vec<i64>)
        ensures
            r@.to_set() == self@.ignored_item_ids,
            r@.no_duplicates(),
    {
        self.ignored_item_ids.ids()
    }

    /// Matches a crystal-priced response with its request: returns the item
    /// it prices (the request's `refer`, else the response's `itemGoldId`)
    /// and forgets the request. Responses without crystal prices change
    /// nothing.
    pub fn apply_price_response(&mut self, syn_id: &str, response: &PriceResponse) -> (r: Option<
        i64,
    >)
        ensures
            ({
                let crystal = response.currency_base_id == Some(CRYSTAL_BASE_ID)
                    && response.unit_prices@.len() > 0;
                let request = if old(self)@.pending_price_requests.contains_key(syn_id@) {
                    old(self)@.pending_price_requests[syn_id@]
                } else {
                    PriceRequest { refer_base_id: None }
                };
                &&& !crystal ==> final(self)@ == old(self)@ && r is None
                &&& crystal ==> final(self)@ == (TrackerView {
                    pending_price_requests: old(self)@.pending_price_requests.remove(syn_id@),
                    ..old(self)@
                })
                &&& crystal ==> r == match request.refer_base_id {
                    Some(id) => Some(id),
                    None => response.item_gold_id,
                }
            }),
    {
        let crystal = match response.currency_base_id {
            Some(c) => c == CRYSTAL_BASE_ID,
            None => false,
        } && response.unit_prices.len() > 0;
        if !crystal {
            return None;
        }
        let key = chars_of(syn_id);
        let request = match self.pending_price_requests.remove(key.as_slice()) {
            Some(req) => req,
            None => PriceRequest { refer_base_id: None },
        };
        match request.refer_base_id {
            Some(id) => Some(id),
            None => response.item_gold_id,
        }
    }

    /// The log opened: clears the remembered open error, reporting whether
    /// there was one.
    pub fn record_open_ok(&mut self) -> (recovered: bool)
        ensures
            recovered == old(self)@.last_log_open_error is Some,
            final(self)@ == (TrackerView { last_log_open_error: None, ..old(self)@ }),
    {
        let recovered = self.last_log_open_error.is_some();
        self.last_log_open_error = None;
        recovered
    }

    /// The log failed to open with `message`: remembers it, reporting whether
    /// it differs from the error already remembered.
    pub fn record_open_failure(&mut self, message: String) -> (changed: bool)
        ensures
            changed == (old(self)@.last_log_open_error != Some(message@)),
            final(self)@ == (TrackerView { last_log_open_error: Some(message@), ..old(self)@ }),
    {
        let changed = match &self.last_log_open_error {
            Some(m) => {
                let a = chars_of(m.as_str());
                let b = chars_of(message.as_str());
                !chars_eq(a.as_slice(), b.as_slice())
            },
            None => true,
        };
        self.last_log_open_error = Some(message);
        changed
    }

    /// The tracker's state for the debug panel; whether the log exists, its
    /// size and the last activity come from the caller.
    pub fn debug_info(&self, game_log_exists: bool, game_log_size: Option<u64>, last_activity: String) -> (r:
        TrackerDebugInfo)
        ensures
            r.game_log_path@ == self@.log_path,
            r.game_log_exists == game_log_exists,
            r.game_log_size == game_log_size,
            r.read_offset == self@.offset,
            r.line_number == self@.line_number,
            r.idle_poll_count == self@.idle_poll_count,
            opt_str(r.current_proto) == self@.current_proto,
            r.active_run == self@.current_run is Some,
            opt_str(r.current_map) == match self@.current_run {
                Some(run) => Some(run.map_name_ko + seq![' '] + run.difficulty),
                None => None,
            },
            opt_str(r.last_error) == self@.last_log_open_error,
            r.last_activity@ == last_activity@,
    {
        let current_map = match &self.current_run {
            Some(run) => {
                let a = chars_of(run.map_name_ko.as_str());
                let b = chars_of(run.difficulty.as_str());
                let space = vec![' '];
                let a1 = concat(a.as_slice(), space.as_slice());
                let all = concat(a1.as_slice(), b.as_slice());
                assert(all@ =~= run@.map_name_ko + seq![' '] + run@.difficulty);
                Some(string_from(all.as_slice()))
            },
            None => None,
        };
        TrackerDebugInfo {
            game_log_path: self.log_path.clone(),
            game_log_exists,
            game_log_size,
            read_offset: self.offset,
            line_number: self.line_number,
            idle_poll_count: self.idle_poll_count,
            current_proto: clone_opt_string(&self.current_proto),
            active_run: self.current_run.is_some(),
            current_map,
            last_error: clone_opt_string(&self.last_log_open_error),
            last_activity,
        }
    }

    /// The run in progress.
    pub fn current_run(&self) -> (r: &Option<RunState>)
        ensures
            opt_run(*r) == self@.current_run,
    {
        &self.current_run
    }

    /// The runs finished in this session, oldest first.
    pub fn completed_runs(&self) -> (r: &Vec<RunState>)
        ensures
            run_views(r@) == self@.completed_runs,
    {
        &self.completed_runs
    }
}

} // verus!
