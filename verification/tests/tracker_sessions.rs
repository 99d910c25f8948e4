use torch_overlay::clock::Timestamp;
use torch_overlay::log_lines::CRYSTAL_BASE_ID;
use torch_overlay::offline::OfflineMaps;
use torch_overlay::price::{parse_price_response, PriceResponse};
use torch_overlay::tracker::{LogTracker, StoreAction};
use torch_overlay::valuation::{displayed_run, loot_quantities, recent_loot, run_durations, value_loot};

fn at(secs: i64) -> Timestamp {
    Timestamp { secs, nanos: 0 }
}

fn maps() -> OfflineMaps {
    OfflineMaps::new(
        vec![("SD_ZhongXiGaoQiang".to_string(), "종식의 벽".to_string())],
        Vec::new(),
        Vec::new(),
    )
}

const AREA_LV_6: &str =
    "[2026.05.04-06.00.00:000][  0]TLLua: MysteryAreaModel@UpdateMysteryMapDataList AreaId == 1000 AreaLv == 6";
const AREA_LV_8: &str =
    "[2026.05.04-06.00.00:000][  0]TLLua: MysteryAreaModel@UpdateMysteryMapDataList AreaId == 1000 AreaLv == 8";
const LOAD_WALL: &str = "[2026.05.04-06.00.01:000][  0]Loading@ BeginLoadingScreen MapName = /Game/Art/Maps/01SD/SD_ZhongXiGaoQiang200/SD_ZhongXiGaoQiang200";
const PICK_START: &str = "ItemChange@ ProtoName=PickItems start";
const PICK_END: &str = "ItemChange@ ProtoName=PickItems end";
const TOWN: &str = "TLNetGame: +checkType [MainCity]";

fn crystal_update(bag_num: i64) -> String {
    format!("ItemChange@ Update Id=100300_1 BagNum={bag_num} in PageId=102 SlotId=0")
}

#[test]
fn map_load_opens_run_with_area_level_difficulty() {
    let mut tracker = LogTracker::new("UE_game.log".to_string());
    tracker.consume_line_at(AREA_LV_6, at(100), &maps());
    let actions = tracker.consume_line_at(LOAD_WALL, at(101), &maps());
    assert_eq!(actions.len(), 1);
    match &actions[0].action {
        StoreAction::InsertRun { run_id, map_code, map_name_ko, difficulty, area_lv, .. } => {
            assert_eq!(*run_id, 1);
            assert_eq!(map_code, "SD_ZhongXiGaoQiang200");
            assert_eq!(map_name_ko, "종식의 벽");
            assert_eq!(difficulty, "7-0");
            assert_eq!(*area_lv, Some(6));
        }
        _ => panic!("expected a new run"),
    }
    let run = tracker.current_run().as_ref().unwrap();
    assert_eq!(run.started_at, at(101));
}

#[test]
fn pick_items_gain_inside_run_is_loot() {
    let mut tracker = LogTracker::new("UE_game.log".to_string());
    tracker.consume_line_at(LOAD_WALL, at(0), &maps());
    tracker.consume_line_at(&crystal_update(10), at(1), &maps());
    tracker.consume_line_at(PICK_START, at(2), &maps());
    let actions = tracker.consume_line_at(&crystal_update(14), at(3), &maps());
    tracker.consume_line_at(PICK_END, at(4), &maps());
    assert_eq!(actions.len(), 1);
    match &actions[0].action {
        StoreAction::InsertLootEvent { run_id, config_base_id, quantity, proto_name, page_id, slot_id, .. } => {
            assert_eq!(*run_id, 1);
            assert_eq!(*config_base_id, CRYSTAL_BASE_ID);
            assert_eq!(*quantity, 4);
            assert_eq!(proto_name, "PickItems");
            assert_eq!(*page_id, Some(102));
            assert_eq!(*slot_id, Some(0));
        }
        _ => panic!("expected loot"),
    }
    let run = tracker.current_run().as_ref().unwrap();
    assert_eq!(run.loot.len(), 1);
    assert_eq!(run.loot[0].quantity, 4);
}

#[test]
fn exchange_gain_is_not_loot() {
    let mut tracker = LogTracker::new("UE_game.log".to_string());
    tracker.consume_line_at(LOAD_WALL, at(0), &maps());
    tracker.consume_line_at(&crystal_update(10), at(1), &maps());
    tracker.consume_line_at("ItemChange@ ProtoName=XchgReceive start", at(2), &maps());
    let actions = tracker.consume_line_at(&crystal_update(110), at(3), &maps());
    assert!(actions.is_empty());
    assert!(tracker.current_run().as_ref().unwrap().loot.is_empty());
}

#[test]
fn pick_items_without_run_is_not_loot() {
    let mut tracker = LogTracker::new("UE_game.log".to_string());
    tracker.consume_line_at(&crystal_update(10), at(1), &maps());
    tracker.consume_line_at(PICK_START, at(2), &maps());
    let actions = tracker.consume_line_at(&crystal_update(20), at(3), &maps());
    assert!(actions.is_empty());
    assert!(tracker.current_run().is_none());
}

#[test]
fn town_line_closes_run_and_keeps_it_when_it_has_loot() {
    let mut tracker = LogTracker::new("UE_game.log".to_string());
    tracker.consume_line_at(LOAD_WALL, at(0), &maps());
    tracker.consume_line_at(&crystal_update(10), at(0), &maps());
    tracker.consume_line_at(PICK_START, at(0), &maps());
    tracker.consume_line_at(&crystal_update(12), at(0), &maps());
    let actions = tracker.consume_line_at(TOWN, at(0), &maps());
    assert!(tracker.current_run().is_none());
    assert!(matches!(actions[0].action, StoreAction::CloseRun { run_id: 1, .. }));
    assert_eq!(tracker.completed_runs().len(), 1);
    assert_eq!(tracker.completed_runs()[0].ended_at, Some(at(0)));
}

#[test]
fn empty_instant_run_is_dropped_on_close() {
    let mut tracker = LogTracker::new("UE_game.log".to_string());
    tracker.consume_line_at(LOAD_WALL, at(10), &maps());
    let actions = tracker.consume_line_at(TOWN, at(10), &maps());
    assert!(matches!(actions[0].action, StoreAction::CloseRun { run_id: 1, .. }));
    assert!(tracker.completed_runs().is_empty());
}

#[test]
fn run_lasting_a_second_is_kept() {
    let mut tracker = LogTracker::new("UE_game.log".to_string());
    tracker.consume_line_at(LOAD_WALL, at(10), &maps());
    tracker.consume_line_at(TOWN, at(11), &maps());
    assert_eq!(tracker.completed_runs().len(), 1);
    let (durations, total) = run_durations(tracker.completed_runs());
    assert_eq!(durations, vec![1]);
    assert_eq!(total, 1);
}

#[test]
fn same_map_same_difficulty_continues_run() {
    let mut tracker = LogTracker::new("UE_game.log".to_string());
    tracker.consume_line_at(LOAD_WALL, at(0), &maps());
    let actions = tracker.consume_line_at(LOAD_WALL, at(5), &maps());
    assert!(actions.is_empty());
    assert_eq!(tracker.current_run().as_ref().unwrap().id, 1);
    assert_eq!(tracker.current_run().as_ref().unwrap().last_seen_at, at(5));
}

#[test]
fn new_difficulty_starts_next_run_with_next_id() {
    let mut tracker = LogTracker::new("UE_game.log".to_string());
    tracker.consume_line_at(AREA_LV_6, at(0), &maps());
    tracker.consume_line_at(LOAD_WALL, at(0), &maps());
    tracker.consume_line_at(AREA_LV_8, at(30), &maps());
    let actions = tracker.consume_line_at(LOAD_WALL, at(31), &maps());
    assert_eq!(actions.len(), 2);
    assert!(matches!(actions[0].action, StoreAction::CloseRun { run_id: 1, .. }));
    assert!(matches!(actions[1].action, StoreAction::InsertRun { run_id: 2, .. }));
    let run = tracker.current_run().as_ref().unwrap();
    assert_eq!(run.difficulty, "7-2");
    assert_eq!(tracker.completed_runs()[0].id, 1);
}

#[test]
fn level_uid_gives_difficulty_without_area_level() {
    let mut tracker = LogTracker::new("UE_game.log".to_string());
    tracker.consume_line_at("LevelMgr@ LevelUid, LevelType, LevelId = 1091011 3 4611", at(0), &maps());
    tracker.consume_line_at(LOAD_WALL, at(1), &maps());
    assert_eq!(tracker.current_run().as_ref().unwrap().difficulty, "8-0");
}

#[test]
fn area_level_wins_over_level_uid() {
    let mut tracker = LogTracker::new("UE_game.log".to_string());
    tracker.consume_line_at("LevelMgr@ LevelUid, LevelType, LevelId = 1091011 3 4611", at(0), &maps());
    tracker.consume_line_at(AREA_LV_6, at(0), &maps());
    tracker.consume_line_at(LOAD_WALL, at(1), &maps());
    assert_eq!(tracker.current_run().as_ref().unwrap().difficulty, "7-0");
}

#[test]
fn reset_session_forgets_runs_but_keeps_path() {
    let mut tracker = LogTracker::new("UE_game.log".to_string());
    tracker.consume_line_at(LOAD_WALL, at(0), &maps());
    tracker.consume_line_at(TOWN, at(9), &maps());
    tracker.reset_session();
    assert!(tracker.completed_runs().is_empty());
    assert!(tracker.current_run().is_none());
    assert_eq!(tracker.game_log_path(), "UE_game.log");
    let actions = tracker.consume_line_at(LOAD_WALL, at(20), &maps());
    assert!(matches!(actions[0].action, StoreAction::InsertRun { run_id: 1, .. }));
}

#[test]
fn set_log_path_starts_fresh_session() {
    let mut tracker = LogTracker::new("a.log".to_string());
    tracker.consume_line_at(LOAD_WALL, at(0), &maps());
    tracker.set_log_path("b.log".to_string());
    assert_eq!(tracker.game_log_path(), "b.log");
    assert!(tracker.current_run().is_none());
}

#[test]
fn ignoring_crystal_is_refused() {
    let mut tracker = LogTracker::new("UE_game.log".to_string());
    assert_eq!(
        tracker.set_item_ignored(CRYSTAL_BASE_ID, true),
        Err("crystal cannot be ignored".to_string())
    );
    assert!(tracker.ignored_item_ids().is_empty());
    assert_eq!(tracker.set_item_ignored(5028, true), Ok(()));
    assert_eq!(tracker.set_item_ignored(5028, true), Ok(()));
    assert_eq!(tracker.ignored_item_ids(), vec![5028]);
    assert_eq!(tracker.set_item_ignored(CRYSTAL_BASE_ID, false), Ok(()));
    assert_eq!(tracker.set_item_ignored(5028, false), Ok(()));
    assert!(tracker.ignored_item_ids().is_empty());
}

#[test]
fn ignored_items_survive_reset() {
    let mut tracker = LogTracker::new("UE_game.log".to_string());
    tracker.load_ignored_item_ids(&vec![7, 7, 9]);
    tracker.reset_session();
    let mut ids = tracker.ignored_item_ids();
    ids.sort();
    assert_eq!(ids, vec![7, 9]);
}

#[test]
fn take_chunk_keeps_unterminated_tail() {
    let mut tracker = LogTracker::new("UE_game.log".to_string());
    assert_eq!(tracker.observe_log_length(10), 0);
    let lines = tracker.take_chunk("first\r\nsec", 10);
    assert_eq!(lines, vec!["first\r".to_string()]);
    let lines = tracker.take_chunk("ond\nthird\n", 20);
    assert_eq!(lines, vec!["second".to_string(), "third".to_string()]);
    let lines = tracker.take_chunk("", 20);
    assert!(lines.is_empty());
    let info = tracker.debug_info(true, Some(20), "idle".to_string());
    assert_eq!(info.read_offset, 20);
    assert_eq!(info.idle_poll_count, 1);
}

#[test]
fn truncated_log_restarts_from_beginning() {
    let mut tracker = LogTracker::new("UE_game.log".to_string());
    tracker.take_chunk("abc", 30);
    assert_eq!(tracker.observe_log_length(40), 30);
    assert_eq!(tracker.observe_log_length(5), 0);
    let lines = tracker.take_chunk("xyz\n", 4);
    assert_eq!(lines, vec!["xyz".to_string()]);
}

#[test]
fn baseline_counts_item_changes_without_loot() {
    let mut tracker = LogTracker::new("UE_game.log".to_string());
    let content = format!("{}\n{}\n{}\n", LOAD_WALL, crystal_update(50), "noise");
    assert_eq!(tracker.bootstrap_inventory_baseline(Some(&content), 300), 1);
    let info = tracker.debug_info(true, Some(300), String::new());
    assert_eq!(info.line_number, 3);
    assert_eq!(info.read_offset, 300);
    assert!(!info.active_run);
    tracker.consume_line_at(LOAD_WALL, at(0), &maps());
    tracker.consume_line_at(PICK_START, at(0), &maps());
    let actions = tracker.consume_line_at(&crystal_update(57), at(0), &maps());
    assert!(matches!(actions[0].action, StoreAction::InsertLootEvent { quantity: 7, .. }));
    assert_eq!(tracker.bootstrap_inventory_baseline(None, 0), 0);
}

#[test]
fn polled_lines_are_counted() {
    let mut tracker = LogTracker::new("UE_game.log".to_string());
    tracker.consume_polled_line(AREA_LV_6, &maps());
    tracker.consume_polled_line(LOAD_WALL, &maps());
    let info = tracker.debug_info(true, None, "x".to_string());
    assert_eq!(info.line_number, 2);
    assert!(info.active_run);
    assert_eq!(info.current_map, Some("종식의 벽 7-0".to_string()));
    let run = tracker.current_run().as_ref().unwrap();
    assert_eq!(run.started_at.secs, 1777874401);
}

#[test]
fn open_errors_are_reported_once() {
    let mut tracker = LogTracker::new("UE_game.log".to_string());
    assert!(!tracker.record_open_ok());
    assert!(tracker.record_open_failure("open failed error=missing".to_string()));
    assert!(!tracker.record_open_failure("open failed error=missing".to_string()));
    let info = tracker.debug_info(false, None, String::new());
    assert_eq!(info.last_error, Some("open failed error=missing".to_string()));
    assert!(tracker.record_open_ok());
    assert_eq!(tracker.debug_info(false, None, String::new()).last_error, None);
}

fn price_lines(lines: &[&str]) -> (Vec<String>, Vec<bool>) {
    let lines: Vec<String> = lines.iter().map(|l| l.to_string()).collect();
    let priced = lines
        .iter()
        .map(|line| {
            line.split_once('[')
                .and_then(|(_, rest)| rest.split_once(']'))
                .map_or(false, |(v, _)| v.trim().parse::<f64>().is_ok())
        })
        .collect();
    (lines, priced)
}

#[test]
fn price_search_pairs_request_and_response() {
    let mut tracker = LogTracker::new("UE_game.log".to_string());
    let m = maps();
    for line in [
        "TLNetGame: ----Socket SendMessage STT----XchgSearchPrice----SynId = 57951",
        "+typ3 [63]",
        "+filters+1+key [4]",
        "|       | +refer [5080]",
        "TLNetGame: ----Socket SendMessage End----",
        "TLNetGame: ----Socket RecvMessage STT----XchgSearchPrice----SynId = 57951",
        "+prices+1+unitPrices+1 [0.019957631843015]",
        "|      | |          +2 [0.02000200020002]",
        "|      | +currency [100300]",
        "+errCode",
    ] {
        assert!(tracker.consume_line_at(line, at(0), &m).is_empty());
    }
    let actions = tracker.consume_line_at("TLNetGame: ----Socket RecvMessage End----", at(0), &m);
    assert_eq!(actions.len(), 1);
    let (syn_id, lines) = match &actions[0].action {
        StoreAction::PriceResponseReady { syn_id, lines } => (syn_id.clone(), lines.clone()),
        _ => panic!("expected a response"),
    };
    assert_eq!(syn_id, "57951");
    assert_eq!(lines.len(), 5);
    let (text, priced) = price_lines(&lines.iter().map(|s| s.as_str()).collect::<Vec<_>>());
    let response = parse_price_response(&text, &priced);
    assert_eq!(response.currency_base_id, Some(CRYSTAL_BASE_ID));
    assert_eq!(response.unit_prices, vec!["0.019957631843015".to_string(), "0.02000200020002".to_string()]);
    assert_eq!(tracker.apply_price_response("57951", &response), Some(5080));
    // The request was consumed: a second response falls back to itemGoldId.
    assert_eq!(tracker.apply_price_response("57951", &response), None);
}

#[test]
fn response_without_crystal_prices_changes_nothing() {
    let mut tracker = LogTracker::new("UE_game.log".to_string());
    let (text, priced) = price_lines(&[
        "+prices+1+unitPrices+1 [3.5]",
        "|      | +currency [100200]",
        "+itemGoldId [5080]",
    ]);
    let response: PriceResponse = parse_price_response(&text, &priced);
    assert_eq!(response.currency_base_id, None);
    assert!(response.unit_prices.is_empty());
    assert_eq!(response.item_gold_id, Some(5080));
    assert_eq!(tracker.apply_price_response("1", &response), None);
}

#[test]
fn crystal_response_falls_back_to_item_gold_id() {
    let mut tracker = LogTracker::new("UE_game.log".to_string());
    let (text, priced) = price_lines(&[
        "+prices+1+unitPrices+1 [0.5]",
        "|      | +currency [100300]",
        "+itemGoldId [777]",
    ]);
    let response = parse_price_response(&text, &priced);
    assert_eq!(tracker.apply_price_response("no-request", &response), Some(777));
}

#[test]
fn loot_valuation_splits_every_event_once() {
    let mut tracker = LogTracker::new("UE_game.log".to_string());
    tracker.consume_line_at(LOAD_WALL, at(0), &maps());
    for line in [
        crystal_update(10),
        "ItemChange@ Update Id=5028_a BagNum=1 in PageId=102 SlotId=3".to_string(),
        "ItemChange@ Update Id=6000_b BagNum=1 in PageId=102 SlotId=4".to_string(),
        "ItemChange@ Update Id=7000_c BagNum=1 in PageId=102 SlotId=5".to_string(),
        PICK_START.to_string(),
        crystal_update(13),
        "ItemChange@ Update Id=5028_a BagNum=3 in PageId=102 SlotId=3".to_string(),
        "ItemChange@ Update Id=6000_b BagNum=2 in PageId=102 SlotId=4".to_string(),
        "ItemChange@ Update Id=7000_c BagNum=5 in PageId=102 SlotId=5".to_string(),
        "ItemChange@ Add Id=8000_d BagNum=1 in PageId=102 SlotId=6".to_string(),
    ] {
        tracker.consume_line_at(&line, at(1), &maps());
    }
    let run = tracker.current_run().as_ref().unwrap();
    assert_eq!(run.loot.len(), 5);
    let priced = vec![5028, 6000];
    let ignored = vec![6000, 7000];
    let valuation = value_loot(&run.loot, &priced, &ignored);
    assert_eq!(valuation.crystal, 3);
    assert_eq!(valuation.item_count, 5);
    assert_eq!(valuation.unpriced_item_count, 1);
    assert_eq!(valuation.priced.len(), 1);
    assert_eq!(valuation.priced[0].config_base_id, 5028);
    assert_eq!(valuation.priced[0].quantity, 2);

    let recent = recent_loot(&tracker);
    assert_eq!(recent.len(), 5);
    assert_eq!(recent[0].config_base_id, 8000);
    assert_eq!(recent[4].config_base_id, CRYSTAL_BASE_ID);

    let card = displayed_run(&tracker, at(61));
    assert_eq!(card.map_name_ko, "종식의 벽");
    assert_eq!(card.elapsed_seconds, 61);

    let rows = loot_quantities(&tracker, &priced, &ignored);
    assert_eq!(
        rows,
        vec![(5028, 2), (6000, 1), (7000, 4), (8000, 1), (CRYSTAL_BASE_ID, 3)]
    );
}

#[test]
fn waiting_card_without_runs() {
    let tracker = LogTracker::new("UE_game.log".to_string());
    let card = displayed_run(&tracker, at(5));
    assert_eq!(card.map_name_ko, "대기 중");
    assert_eq!(card.difficulty, "-");
    assert_eq!(card.elapsed_seconds, 0);
}

#[test]
fn crlf_endings_are_dropped_from_complete_lines() {
    let mut tracker = LogTracker::new("UE_game.log".to_string());
    let lines = tracker.take_chunk("a\r\nb\r\n", 6);
    assert_eq!(lines, vec!["a".to_string(), "b".to_string()]);
    let lines = tracker.take_chunk("no break yet", 18);
    assert!(lines.is_empty());
    let lines = tracker.take_chunk("\n", 19);
    assert_eq!(lines, vec!["no break yet".to_string()]);
}

#[test]
fn failed_close_write_drops_the_run() {
    let mut tracker = LogTracker::new("UE_game.log".to_string());
    tracker.consume_line_at(LOAD_WALL, at(0), &maps());
    let mut steps = tracker.consume_line_at(TOWN, at(30), &maps());
    assert_eq!(steps.len(), 1);
    assert_eq!(tracker.completed_runs().len(), 1);
    let restored = steps.remove(0).on_failure;
    assert!(restored.current_run().is_none());
    assert!(restored.completed_runs().is_empty());
}

#[test]
fn failed_insert_write_leaves_no_run_and_uses_the_id() {
    let mut tracker = LogTracker::new("UE_game.log".to_string());
    let mut steps = tracker.consume_line_at(LOAD_WALL, at(0), &maps());
    assert_eq!(steps.len(), 1);
    let mut restored = steps.remove(0).on_failure;
    assert!(restored.current_run().is_none());
    let again = restored.consume_line_at(LOAD_WALL, at(5), &maps());
    assert!(matches!(again[0].action, StoreAction::InsertRun { run_id: 2, .. }));
}

#[test]
fn failed_loot_write_keeps_the_new_stack_size() {
    let mut tracker = LogTracker::new("UE_game.log".to_string());
    tracker.consume_line_at(LOAD_WALL, at(0), &maps());
    tracker.consume_line_at(&crystal_update(10), at(0), &maps());
    tracker.consume_line_at(PICK_START, at(0), &maps());
    let mut steps = tracker.consume_line_at(&crystal_update(14), at(0), &maps());
    assert_eq!(tracker.current_run().as_ref().unwrap().loot.len(), 1);
    let mut restored = steps.remove(0).on_failure;
    assert!(restored.current_run().as_ref().unwrap().loot.is_empty());
    let next = restored.consume_line_at(&crystal_update(15), at(0), &maps());
    assert!(matches!(next[0].action, StoreAction::InsertLootEvent { quantity: 1, .. }));
}

#[test]
fn failed_price_write_stops_the_rest_of_the_line() {
    let mut tracker = LogTracker::new("UE_game.log".to_string());
    let m = maps();
    tracker.consume_line_at(
        "TLNetGame: ----Socket RecvMessage STT----XchgSearchPrice----SynId = 9",
        at(0),
        &m,
    );
    let line = format!("TLNetGame: ----Socket RecvMessage End---- {}", LOAD_WALL);
    let mut steps = tracker.consume_line_at(&line, at(0), &m);
    assert_eq!(steps.len(), 2);
    assert!(matches!(steps[0].action, StoreAction::PriceResponseReady { .. }));
    assert!(tracker.current_run().is_some());
    let restored = steps.remove(0).on_failure;
    assert!(restored.current_run().is_none());
}

#[test]
fn copy_state_is_the_same_tracker() {
    let mut tracker = LogTracker::new("UE_game.log".to_string());
    tracker.consume_line_at(LOAD_WALL, at(0), &maps());
    let copy = tracker.copy_state();
    assert_eq!(copy.game_log_path(), "UE_game.log");
    assert_eq!(copy.current_run().as_ref().unwrap().id, 1);
}

#[test]
fn baseline_counts_every_line_of_the_file() {
    let mut tracker = LogTracker::new("UE_game.log".to_string());
    tracker.bootstrap_inventory_baseline(Some("a\n\nb\nlast"), 14);
    let info = tracker.debug_info(true, None, String::new());
    assert_eq!(info.line_number, 4);
    assert_eq!(info.read_offset, 14);
    tracker.bootstrap_inventory_baseline(Some("a\n\nb\n"), 6);
    assert_eq!(tracker.debug_info(true, None, String::new()).line_number, 3);
}
