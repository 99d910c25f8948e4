//! A one-shot reading of a whole game log into crystal runs.

use vstd::prelude::*;
use crate::clock::{Timestamp, duration_seconds_opt, parse_timestamp, spec_duration_seconds_opt, spec_parse_timestamp};
use crate::log_lines::{
    area_lv_chars, area_lv_from_level_uid, difficulty_from_area_lv, is_proto_end_chars,
    is_town_line_chars, is_town_map_code_chars, level_info_chars, map_code_chars,
    number_after_chars, proto_start_chars, spec_area_lv, spec_area_lv_from_level_uid,
    spec_difficulty, spec_is_proto_end, spec_is_town_line, spec_is_town_map_code,
    spec_level_info, spec_map_code, spec_number_after, spec_proto_start,
};
use crate::offline::{OfflineMaps, OfflineMapsView, spec_map_name_from_code};
use crate::text::{chars_eq, chars_of, contains, contains_exec, opt_str, spec_lines, split_lines, str_views, string_from};

verus! {

/// The run shown on the top bar.
pub struct CurrentRun {
    pub map_name_ko: String,
    pub difficulty: String,
    pub elapsed_seconds: i64,
    pub crystal: i64,
}

/// A finished run.
pub struct RunSummary {
    pub id: i64,
    pub map_name_ko: String,
    pub difficulty: String,
    pub duration_seconds: i64,
    pub crystal: i64,
}

/// Crystal runs read from a log. Averages are left to the caller.
pub struct TrackerSnapshot {
    pub current_run: CurrentRun,
    pub runs: Vec<RunSummary>,
    /// Crystal over all finished runs.
    pub total_crystal: i128,
    /// Seconds over all finished runs.
    pub total_seconds: i128,
}

struct RunBuilder {
    map_name_ko: String,
    difficulty: String,
    started_at: Option<Timestamp>,
    last_seen_at: Option<Timestamp>,
    crystal: i64,
}

#[verifier::ext_equal]
pub struct BuilderView {
    pub map_name_ko: Seq<char>,
    pub difficulty: Seq<char>,
    pub started_at: Option<Timestamp>,
    pub last_seen_at: Option<Timestamp>,
    pub crystal: i64,
}

#[verifier::ext_equal]
pub struct SummaryView {
    pub id: i64,
    pub map_name_ko: Seq<char>,
    pub difficulty: Seq<char>,
    pub duration_seconds: i64,
    pub crystal: i64,
}

impl View for RunSummary {
    type V = SummaryView;

    open spec fn view(&self) -> SummaryView {
        SummaryView {
            id: self.id,
            map_name_ko: self.map_name_ko@,
            difficulty: self.difficulty@,
            duration_seconds: self.duration_seconds,
            crystal: self.crystal,
        }
    }
}

pub open spec fn summary_views(s: Seq<RunSummary>) -> Seq<SummaryView> {
    s.map_values(|r: RunSummary| r@)
}

struct ParseState {
    current_run: Option<RunBuilder>,
    completed_runs: Vec<RunSummary>,
    current_proto: Option<String>,
    last_crystal_total: Option<i64>,
    pending_area_lv: Option<i64>,
    pending_level_uid: Option<String>,
    pending_level_id: Option<String>,
    next_run_id: i64,
}

#[verifier::ext_equal]
pub struct ParseView {
    pub current_run: Option<BuilderView>,
    pub completed_runs: Seq<SummaryView>,
    pub current_proto: Option<Seq<char>>,
    pub last_crystal_total: Option<i64>,
    pub pending_area_lv: Option<i64>,
    pub pending_level_uid: Option<Seq<char>>,
    pub pending_level_id: Option<Seq<char>>,
    pub next_run_id: i64,
}

spec fn builder_view(b: RunBuilder) -> BuilderView {
    BuilderView {
        map_name_ko: b.map_name_ko@,
        difficulty: b.difficulty@,
        started_at: b.started_at,
        last_seen_at: b.last_seen_at,
        crystal: b.crystal,
    }
}

impl View for ParseState {
    type V = ParseView;

    closed spec fn view(&self) -> ParseView {
        ParseView {
            current_run: match self.current_run {
                Some(b) => Some(builder_view(b)),
                None => None,
            },
            completed_runs: summary_views(self.completed_runs@),
            current_proto: opt_str(self.current_proto),
            last_crystal_total: self.last_crystal_total,
            pending_area_lv: self.pending_area_lv,
            pending_level_uid: opt_str(self.pending_level_uid),
            pending_level_id: opt_str(self.pending_level_id),
            next_run_id: self.next_run_id,
        }
    }
}

pub open spec fn initial_parse() -> ParseView {
    ParseView {
        current_run: None,
        completed_runs: seq![],
        current_proto: None,
        last_crystal_total: None,
        pending_area_lv: None,
        pending_level_uid: None,
        pending_level_id: None,
        next_run_id: 1,
    }
}

/// `a + b` held within `i64`.
pub open spec fn sat_add(a: i64, b: int) -> i64 {
    if a + b > i64::MAX {
        i64::MAX
    } else if a + b < i64::MIN {
        i64::MIN
    } else {
        (a + b) as i64
    }
}

/// The crystal total announced on a line: the bag count of a crystal stack
/// update, or the count of a crystal bag slot.
pub open spec fn spec_crystal_total(line: Seq<char>) -> Option<i64> {
    if contains(line, "ItemChange@ Update Id=100300_"@) {
        spec_number_after(line, "BagNum="@)
    } else if contains(line, "ConfigBaseId = 100300"@) {
        spec_number_after(line, "Num ="@)
    } else {
        None
    }
}

/// Closing the current run: it is recorded, with the next id, unless it
/// lasted no time and found no crystal.
pub open spec fn ps_close_run(p: ParseView, ts: Option<Timestamp>) -> ParseView {
    match p.current_run {
        None => p,
        Some(run) => {
            let end = match ts {
                Some(t) => Some(t),
                None => run.last_seen_at,
            };
            let d = spec_duration_seconds_opt(run.started_at, end);
            if d == 0 && run.crystal == 0 {
                ParseView { current_run: None, ..p }
            } else {
                ParseView {
                    current_run: None,
                    completed_runs: p.completed_runs.push(
                        SummaryView {
                            id: p.next_run_id,
                            map_name_ko: run.map_name_ko,
                            difficulty: run.difficulty,
                            duration_seconds: d as i64,
                            crystal: run.crystal,
                        },
                    ),
                    next_run_id: if p.next_run_id < i64::MAX {
                        (p.next_run_id + 1) as i64
                    } else {
                        i64::MAX
                    },
                    ..p
                }
            }
        },
    }
}

/// Entering a map: a new run starts unless the current one has the same name
/// and difficulty.
pub open spec fn ps_open_run(p: ParseView, name: Seq<char>, difficulty: Seq<char>, ts: Option<Timestamp>) -> ParseView {
    let start_new = match p.current_run {
        Some(run) => run.map_name_ko != name || run.difficulty != difficulty,
        None => true,
    };
    if !start_new {
        p
    } else {
        ParseView {
            current_run: Some(
                BuilderView {
                    map_name_ko: name,
                    difficulty,
                    started_at: ts,
                    last_seen_at: ts,
                    crystal: 0,
                },
            ),
            ..ps_close_run(p, ts)
        }
    }
}

/// A new crystal total: a rise while picking items up adds to the run.
pub open spec fn ps_crystal_total(p: ParseView, total: i64) -> ParseView {
    let delta: int = match p.last_crystal_total {
        Some(prev) => total - prev,
        None => 0,
    };
    let p1 = ParseView { last_crystal_total: Some(total), ..p };
    if delta <= 0 || p.current_proto != Some("PickItems"@) {
        p1
    } else {
        match p.current_run {
            Some(run) => ParseView {
                current_run: Some(BuilderView { crystal: sat_add(run.crystal, delta), ..run }),
                ..p1
            },
            None => p1,
        }
    }
}

/// Map loads outside town open a run.
pub open spec fn ps_map_line(p: ParseView, line: Seq<char>, ts: Option<Timestamp>, maps: OfflineMapsView) -> ParseView {
    match spec_map_code(line) {
        Some(code) => if !spec_is_town_map_code(code) {
            let area_lv = match p.pending_area_lv {
                Some(a) => Some(a),
                None => spec_area_lv_from_level_uid(p.pending_level_uid),
            };
            ps_open_run(
                p,
                spec_map_name_from_code(maps, code, p.pending_level_id),
                spec_difficulty(area_lv),
                ts,
            )
        } else {
            p
        },
        None => p,
    }
}

/// The effect of one line.
pub open spec fn ps_consume_line(p: ParseView, line: Seq<char>, maps: OfflineMapsView) -> ParseView {
    let ts = spec_parse_timestamp(line);
    let p2 = match spec_area_lv(line) {
        Some(a) => ParseView { pending_area_lv: Some(a), ..p },
        None => p,
    };
    let p3 = match spec_level_info(line) {
        Some((uid, id)) => ParseView { pending_level_uid: Some(uid), pending_level_id: id, ..p2 },
        None => p2,
    };
    let p4 = if spec_is_town_line(line) {
        ps_close_run(p3, ts)
    } else {
        p3
    };
    let p5 = ps_map_line(p4, line, ts, maps);
    let p6 = match spec_proto_start(line) {
        Some(proto) => ParseView { current_proto: Some(proto), ..p5 },
        None => p5,
    };
    let p7 = if spec_is_proto_end(line) {
        ParseView { current_proto: None, ..p6 }
    } else {
        p6
    };
    let p8 = match spec_crystal_total(line) {
        Some(total) => ps_crystal_total(p7, total),
        None => p7,
    };
    match (p8.current_run, ts) {
        (Some(run), Some(_)) => ParseView {
            current_run: Some(BuilderView { last_seen_at: ts, ..run }),
            ..p8
        },
        _ => p8,
    }
}

/// The state after reading `lines` from the start.
pub open spec fn ps_consume_lines(lines: Seq<Seq<char>>, maps: OfflineMapsView) -> ParseView
    decreases lines.len(),
{
    if lines.len() == 0 {
        initial_parse()
    } else {
        ps_consume_line(ps_consume_lines(lines.drop_last(), maps), lines.last(), maps)
    }
}

/// Crystal over the runs.
pub open spec fn runs_crystal(runs: Seq<SummaryView>) -> int
    decreases runs.len(),
{
    if runs.len() == 0 {
        0
    } else {
        runs_crystal(runs.drop_last()) + runs.last().crystal
    }
}

/// Seconds over the runs.
pub open spec fn runs_duration(runs: Seq<SummaryView>) -> int
    decreases runs.len(),
{
    if runs.len() == 0 {
        0
    } else {
        runs_duration(runs.drop_last()) + runs.last().duration_seconds
    }
}

proof fn lemma_summary_bounds(runs: Seq<SummaryView>)
    ensures
        -(runs.len() as int) * 0x8000_0000_0000_0000 <= runs_crystal(runs) <= (runs.len() as int)
            * 0x7fff_ffff_ffff_ffff,
        -(runs.len() as int) * 0x8000_0000_0000_0000 <= runs_duration(runs) <= (runs.len() as int)
            * 0x7fff_ffff_ffff_ffff,
    decreases runs.len(),
{
    if runs.len() > 0 {
        lemma_summary_bounds(runs.drop_last());
        let n = runs.len() as int;
        assert((n - 1) * 0x8000_0000_0000_0000 + 0x8000_0000_0000_0000 == n * 0x8000_0000_0000_0000)
            by (nonlinear_arith);
        assert((n - 1) * 0x7fff_ffff_ffff_ffff + 0x7fff_ffff_ffff_ffff == n * 0x7fff_ffff_ffff_ffff)
            by (nonlinear_arith);
    }
}

proof fn lemma_room(n: int)
    requires
        0 <= n <= 0xffff_ffff_ffff_ffff,
    ensures
        n * 0x8000_0000_0000_0000 + 0x8000_0000_0000_0000 <= 0x8000_0000_0000_0000_0000_0000_0000_0000,
        n * 0x7fff_ffff_ffff_ffff + 0x7fff_ffff_ffff_ffff < 0x7fff_ffff_ffff_ffff_ffff_ffff_ffff_ffff,
{
    assert(n * 0x8000_0000_0000_0000 <= 0xffff_ffff_ffff_ffff * 0x8000_0000_0000_0000) by (nonlinear_arith)
        requires
            0 <= n <= 0xffff_ffff_ffff_ffff,
    ;
    assert(n * 0x7fff_ffff_ffff_ffff <= 0xffff_ffff_ffff_ffff * 0x7fff_ffff_ffff_ffff) by (nonlinear_arith)
        requires
            0 <= n <= 0xffff_ffff_ffff_ffff,
    ;
}

impl ParseState {
    fn new() -> (r: ParseState)
        ensures
            r@ == initial_parse(),
    {
        let r = ParseState {
            current_run: None,
            completed_runs: Vec::new(),
            current_proto: None,
            last_crystal_total: None,
            pending_area_lv: None,
            pending_level_uid: None,
            pending_level_id: None,
            next_run_id: 1,
        };
        assert(r@ =~= initial_parse());
        r
    }

    fn close_current_run(&mut self, ts: Option<Timestamp>)
        ensures
            final(self)@ == ps_close_run(old(self)@, ts),
    {
        let run = match self.current_run.take() {
            Some(run) => run,
            None => {
                return;
            },
        };
        let end = match ts {
            Some(t) => Some(t),
            None => run.last_seen_at,
        };
        let d = duration_seconds_opt(run.started_at, end);
        if d == 0 && run.crystal == 0 {
            assert(self@ =~= ps_close_run(old(self)@, ts));
            return;
        }
        let ghost prev = self.completed_runs@;
        let summary = RunSummary {
            id: self.next_run_id,
            map_name_ko: run.map_name_ko,
            difficulty: run.difficulty,
            duration_seconds: d,
            crystal: run.crystal,
        };
        let ghost sv = summary@;
        self.completed_runs.push(summary);
        assert(summary_views(self.completed_runs@) =~= summary_views(prev).push(sv));
        if self.next_run_id < i64::MAX {
            self.next_run_id = self.next_run_id + 1;
        }
        assert(self@ =~= ps_close_run(old(self)@, ts));
    }

    fn open_run(&mut self, name: String, difficulty: String, ts: Option<Timestamp>)
        ensures
            final(self)@ == ps_open_run(old(self)@, name@, difficulty@, ts),
    {
        let start_new = match &self.current_run {
            Some(run) => {
                let a = chars_of(run.map_name_ko.as_str());
                let b = chars_of(name.as_str());
                let c = chars_of(run.difficulty.as_str());
                let d = chars_of(difficulty.as_str());
                !chars_eq(a.as_slice(), b.as_slice()) || !chars_eq(c.as_slice(), d.as_slice())
            },
            None => true,
        };
        if !start_new {
            return;
        }
        self.close_current_run(ts);
        self.current_run = Some(
            RunBuilder { map_name_ko: name, difficulty, started_at: ts, last_seen_at: ts, crystal: 0 },
        );
        assert(self@ =~= ps_open_run(old(self)@, name@, difficulty@, ts));
    }

    fn apply_crystal_total(&mut self, total: i64)
        ensures
            final(self)@ == ps_crystal_total(old(self)@, total),
    {
        let delta: i128 = match self.last_crystal_total {
            Some(prev) => total as i128 - prev as i128,
            None => 0,
        };
        self.last_crystal_total = Some(total);
        let pick = match &self.current_proto {
            Some(p) => {
                let pc = chars_of(p.as_str());
                let pk = chars_of("PickItems");
                chars_eq(pc.as_slice(), pk.as_slice())
            },
            None => false,
        };
        if delta <= 0 || !pick {
            assert(self@ =~= ps_crystal_total(old(self)@, total));
            return;
        }
        if let Some(mut run) = self.current_run.take() {
            let sum = run.crystal as i128 + delta;
            run.crystal = if sum > i64::MAX as i128 {
                i64::MAX
            } else if sum < i64::MIN as i128 {
                i64::MIN
            } else {
                sum as i64
            };
            self.current_run = Some(run);
        }
        assert(self@ =~= ps_crystal_total(old(self)@, total));
    }

    fn consume_map_line(&mut self, l: &[char], ts: Option<Timestamp>, maps: &OfflineMaps)
        ensures
            final(self)@ == ps_map_line(old(self)@, l@, ts, maps@),
    {
        if let Some(code) = map_code_chars(l) {
            if !is_town_map_code_chars(code.as_slice()) {
                let area_lv = match self.pending_area_lv {
                    Some(a) => Some(a),
                    None => match &self.pending_level_uid {
                        Some(u) => area_lv_from_level_uid(Some(u.as_str())),
                        None => area_lv_from_level_uid(None),
                    },
                };
                let code_s = string_from(code.as_slice());
                let name = match &self.pending_level_id {
                    Some(id) => maps.map_name_from_code(code_s.as_str(), Some(id.as_str())),
                    None => maps.map_name_from_code(code_s.as_str(), None),
                };
                self.open_run(name, difficulty_from_area_lv(area_lv), ts);
            }
        }
    }

    fn crystal_total_chars(l: &[char]) -> (r: Option<i64>)
        ensures
            r == spec_crystal_total(l@),
    {
        let up = chars_of("ItemChange@ Update Id=100300_");
        let cfg = chars_of("ConfigBaseId = 100300");
        if contains_exec(l, up.as_slice()) {
            let m = chars_of("BagNum=");
            number_after_chars(l, m.as_slice())
        } else if contains_exec(l, cfg.as_slice()) {
            let m = chars_of("Num =");
            number_after_chars(l, m.as_slice())
        } else {
            None
        }
    }

    fn consume_line(&mut self, line: &str, maps: &OfflineMaps)
        ensures
            final(self)@ == ps_consume_line(old(self)@, line@, maps@),
    {
        let l = chars_of(line);
        let ts = parse_timestamp(line);
        if let Some(a) = area_lv_chars(l.as_slice()) {
            self.pending_area_lv = Some(a);
        }
        if let Some(info) = level_info_chars(l.as_slice()) {
            self.pending_level_uid = Some(info.level_uid);
            self.pending_level_id = info.level_id;
        }
        if is_town_line_chars(l.as_slice()) {
            self.close_current_run(ts);
        }
        self.consume_map_line(l.as_slice(), ts, maps);
        if let Some(p) = proto_start_chars(l.as_slice()) {
            self.current_proto = Some(string_from(p.as_slice()));
        }
        if is_proto_end_chars(l.as_slice()) {
            self.current_proto = None;
        }
        let total = Self::crystal_total_chars(l.as_slice());
        if let Some(t) = total {
            self.apply_crystal_total(t);
        }
        if ts.is_some() {
            if let Some(mut run) = self.current_run.take() {
                run.last_seen_at = ts;
                self.current_run = Some(run);
            }
        }
        assert(self@ =~= ps_consume_line(old(self)@, line@, maps@));
    }
}

/// Reads a whole log into crystal runs.
pub fn parse_log_snapshot(content: &str, maps: &OfflineMaps) -> (r: TrackerSnapshot)
    ensures
        ({
            let p = ps_consume_lines(spec_lines(content@), maps@);
            &&& summary_views(r.runs@) == p.completed_runs
            &&& r.total_crystal == runs_crystal(p.completed_runs)
            &&& r.total_seconds == runs_duration(p.completed_runs)
            &&& match p.current_run {
                Some(run) => r.current_run.map_name_ko@ == run.map_name_ko
                    && r.current_run.difficulty@ == run.difficulty && r.current_run.crystal
                    == run.crystal && r.current_run.elapsed_seconds == spec_duration_seconds_opt(
                    run.started_at,
                    run.last_seen_at,
                ),
                None => r.current_run.map_name_ko@ == "대기 중"@ && r.current_run.difficulty@
                    == "-"@ && r.current_run.crystal == 0 && r.current_run.elapsed_seconds == 0,
            }
        }),
{
    let cc = chars_of(content);
    let lines = split_lines(cc.as_slice());
    let mut state = ParseState::new();
    let mut i: usize = 0;
    while i < lines.len()
        invariant
            i <= lines@.len(),
            str_views(lines@) == spec_lines(content@),
            state@ == ps_consume_lines(str_views(lines@).take(i as int), maps@),
        decreases lines@.len() - i,
    {
        assert(str_views(lines@).take(i + 1).drop_last() =~= str_views(lines@).take(i as int));
        assert(str_views(lines@).take(i + 1).last() == lines@[i as int]@);
        state.consume_line(lines[i].as_str(), maps);
        i += 1;
    }
    assert(str_views(lines@).take(lines@.len() as int) =~= str_views(lines@));
    let ghost p = state@;
    let current_run = match state.current_run.take() {
        Some(run) => CurrentRun {
            elapsed_seconds: duration_seconds_opt(run.started_at, run.last_seen_at),
            map_name_ko: run.map_name_ko,
            difficulty: run.difficulty,
            crystal: run.crystal,
        },
        None => CurrentRun {
            map_name_ko: "대기 중".to_owned(),
            difficulty: "-".to_owned(),
            elapsed_seconds: 0,
            crystal: 0,
        },
    };
    let runs = state.completed_runs;
    let n = runs.len();
    let mut total_crystal: i128 = 0;
    let mut total_seconds: i128 = 0;
    let mut k: usize = 0;
    while k < n
        invariant
            n == runs@.len(),
            k <= n,
            summary_views(runs@) == p.completed_runs,
            total_crystal == runs_crystal(summary_views(runs@).take(k as int)),
            total_seconds == runs_duration(summary_views(runs@).take(k as int)),
        decreases n - k,
    {
        let ghost pre = summary_views(runs@).take(k as int);
        assert(summary_views(runs@).take(k + 1).drop_last() =~= pre);
        assert(summary_views(runs@).take(k + 1).last() == runs@[k as int]@);
        proof {
            lemma_summary_bounds(pre);
            lemma_room(k as int);
        }
        total_crystal = total_crystal + runs[k].crystal as i128;
        total_seconds = total_seconds + runs[k].duration_seconds as i128;
        k += 1;
    }
    assert(summary_views(runs@).take(n as int) =~= summary_views(runs@));
    TrackerSnapshot { current_run, runs, total_crystal, total_seconds }
}

} // verus!
