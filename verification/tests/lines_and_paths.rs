use torch_overlay::game_log::join_path_exec;
use torch_overlay::valuation::row_labels;
use torch_overlay::clock::{duration_seconds, parse_timestamp, Timestamp};
use torch_overlay::diagnostics::{dir, log_line, needs_rotation, path};
use torch_overlay::game_log::{
    default_log_path, game_log_candidates, library_file_path, log_under_root,
    manual_game_log_path, parse_steam_library_paths, path_eq_ignore_ascii_case,
    push_unique_path, quoted_values, resolve_game_log_path, steam_install_roots,
    steam_library_roots,
};
use torch_overlay::ignored::check_manual_price_item;
use torch_overlay::log_lines::{
    area_lv_from_level_uid, clean_map_component, difficulty_from_area_lv, is_town_line,
    is_town_map_code, parse_area_lv, parse_bracket_i64, parse_item_update, parse_level_info,
    parse_map_code, parse_message_start, parse_price_group_id, parse_proto_start,
    strip_numeric_suffix, ItemChangeKind, CRYSTAL_BASE_ID,
};
use torch_overlay::offline::{OfflineItems, OfflineMaps};
use torch_overlay::price::parse_price_request;

#[test]
fn reads_log_timestamp_as_utc() {
    let ts = parse_timestamp("[2026.05.04-06.00.01:250][  0]Loading@ ...").unwrap();
    assert_eq!(ts, Timestamp { secs: 1777874401, nanos: 250_000_000 });
    assert_eq!(parse_timestamp("no stamp here"), None);
    assert_eq!(parse_timestamp("[not a time]"), None);
}

#[test]
fn duration_is_whole_seconds_and_never_negative() {
    let a = Timestamp { secs: 100, nanos: 900_000_000 };
    let b = Timestamp { secs: 191, nanos: 400_000_000 };
    assert_eq!(duration_seconds(a, b), 90);
    assert_eq!(duration_seconds(b, a), 0);
    assert_eq!(duration_seconds(a, a), 0);
}

#[test]
fn difficulty_table() {
    let expected = [
        (4, "5단계"),
        (5, "6단계"),
        (6, "7-0"),
        (7, "7-1"),
        (8, "7-2"),
        (9, "8-0"),
        (10, "8-1"),
        (11, "8-2"),
        (12, "아득한 8단계"),
        (13, "딥 스페이스"),
    ];
    for (lv, label) in expected {
        assert_eq!(difficulty_from_area_lv(Some(lv)), label);
    }
    assert_eq!(difficulty_from_area_lv(Some(3)), "-");
    assert_eq!(difficulty_from_area_lv(None), "-");
}

#[test]
fn level_uid_prefix_gives_area_level() {
    assert_eq!(area_lv_from_level_uid(Some("1061011")), Some(6));
    assert_eq!(area_lv_from_level_uid(Some("1132004")), Some(13));
    assert_eq!(area_lv_from_level_uid(Some("1")), None);
    assert_eq!(area_lv_from_level_uid(Some("2061011")), None);
    assert_eq!(area_lv_from_level_uid(None), None);
}

#[test]
fn reads_area_level_and_level_info() {
    assert_eq!(
        parse_area_lv("MysteryItemMgr@GetBeaconNumByAreaId  AreaId == 2000 AreaLv = 13"),
        Some(13)
    );
    assert_eq!(
        parse_area_lv("MysteryAreaModel@UpdateMysteryMapDataList AreaId == 1000 AreaLv == 6"),
        Some(6)
    );
    assert_eq!(parse_area_lv("MysteryCardMgr@GetCardDataByMapOrder AreaId = 1 MapOrder 3"), None);
    let info = parse_level_info("LevelMgr@ LevelUid, LevelType, LevelId = 1061011 3 4611").unwrap();
    assert_eq!(info.level_uid, "1061011");
    assert_eq!(info.level_id.as_deref(), Some("4611"));
    assert!(parse_level_info("nothing").is_none());
}

#[test]
fn map_code_is_last_path_piece() {
    assert_eq!(
        parse_map_code(
            "Loading@ BeginLoadingScreen MapName = /Game/Art/Maps/01SD/SD_ZhongXiGaoQiang200/SD_ZhongXiGaoQiang200"
        )
        .as_deref(),
        Some("SD_ZhongXiGaoQiang200")
    );
    assert_eq!(
        parse_map_code("Loading@ OnLoadingComplete notify Lua! LoadMapName = /Game/Art/Maps/XZ/XZ_YuJinZhiXiBiNanSuo/XZ_YuJinZhiXiBiNanSuo.XZ_YuJinZhiXiBiNanSuo")
            .as_deref(),
        Some("XZ_YuJinZhiXiBiNanSuo")
    );
    assert_eq!(parse_map_code("no map here"), None);
    assert_eq!(clean_map_component(" \"(Pkg.Level_01),\" "), "Level_01");
    assert_eq!(strip_numeric_suffix("SD_ZhongXiGaoQiang200"), "SD_ZhongXiGaoQiang");
    assert_eq!(strip_numeric_suffix("123"), "");
    assert!(is_town_map_code("XZ_YuJinZhiXiBiNanSuo"));
    assert!(!is_town_map_code("SD_DaHuangZhiYe200"));
    assert!(is_town_line("x +checkType [MainCity] y"));
    assert!(is_town_line("LevelUid=111000"));
    assert!(!is_town_line("LevelUid=1061011"));
}

#[test]
fn item_change_fields_and_keys() {
    assert_eq!(parse_proto_start("ItemChange@ ProtoName=PickItems start").as_deref(), Some("PickItems"));
    assert_eq!(parse_proto_start("ItemChange@ ProtoName=PickItems end"), None);
    let u = parse_item_update("ItemChange@ Update Id=5028_abc BagNum=584 in PageId=102 SlotId=9").unwrap();
    assert_eq!(u.item_instance_id.as_deref(), Some("abc"));
    assert_eq!(u.page_id, Some(102));
    assert_eq!(u.slot_id, Some(9));
    assert_eq!(u.inventory_key(), "5028:abc");
    let plain = parse_item_update("ItemChange@ Add Id=77 BagNum=3 in PageId=100 SlotId=1").unwrap();
    assert_eq!(plain.change_kind, ItemChangeKind::Add);
    assert_eq!(plain.item_instance_id, None);
    assert_eq!(plain.inventory_key(), "77:100:1");
    assert!(parse_item_update("ItemChange@ Remove Id=77 BagNum=3").is_none());
}

#[test]
fn price_message_markers() {
    assert_eq!(
        parse_message_start(
            "TLNetGame: ----Socket SendMessage STT----XchgSearchPrice----SynId = 57951",
            "SendMessage"
        )
        .as_deref(),
        Some("57951")
    );
    assert_eq!(parse_bracket_i64("|      | +currency [100300]"), Some(CRYSTAL_BASE_ID));
    assert_eq!(parse_bracket_i64("+currency [abc]"), None);
    assert_eq!(parse_price_group_id("+prices+1+unitPrices+1 [0.1]"), Some(1));
    assert_eq!(parse_price_group_id("|      +2+unitPrices+1 [10086.0]"), Some(2));
    assert_eq!(parse_price_group_id("+errCode"), None);
    let request = parse_price_request(&vec![
        "+typ3 [63]".to_string(),
        "+filters+1+key [4]".to_string(),
        "|       | +refer [5080]".to_string(),
    ]);
    assert_eq!(request.refer_base_id, Some(5080));
}

#[test]
fn crystal_price_is_fixed() {
    assert_eq!(check_manual_price_item(CRYSTAL_BASE_ID), Err("crystal price is fixed".to_string()));
    assert_eq!(check_manual_price_item(5080), Ok(()));
}

#[test]
fn item_table_lookups() {
    let items = OfflineItems::from_entries(vec![
        ("100300".to_string(), Some("최초의 불꽃 결정".to_string())),
        ("not-a-number".to_string(), Some("x".to_string())),
        ("391000".to_string(), None),
        ("391000".to_string(), Some("거친 루나 가루".to_string())),
    ]);
    assert_eq!(items.item_count(), 2);
    assert_eq!(items.item_name_ko(100300).as_deref(), Some("최초의 불꽃 결정"));
    assert_eq!(items.item_name_ko(391000).as_deref(), Some("거친 루나 가루"));
    assert_eq!(items.item_name_ko(1), None);
    assert_eq!(OfflineItems::new().item_count(), 0);
}

#[test]
fn zone_lookup_order() {
    let maps = OfflineMaps::new(
        vec![("SD_A".to_string(), "exact".to_string())],
        vec![("4611".to_string(), "by level".to_string())],
        vec![(
            "SD_B".to_string(),
            vec![("1".to_string(), "first".to_string()), ("2".to_string(), "second".to_string())],
        )],
    );
    assert_eq!(maps.lookup_map_name("SD_A", Some("4611")).as_deref(), Some("exact"));
    assert_eq!(maps.lookup_map_name("SD_B", Some("4611")).as_deref(), Some("by level"));
    assert_eq!(maps.lookup_map_name("SD_B", None).as_deref(), Some("first"));
    assert_eq!(maps.lookup_map_name("", Some("4611")), None);
    assert_eq!(maps.map_name_from_code("SD_A200", None), "exact");
    assert_eq!(maps.map_name_from_code("SD_C7", None), "SD_C7");
    assert_eq!(OfflineMaps::empty().map_name_from_code("SD_A", None), "SD_A");
}

#[test]
fn diagnostics_location_and_lines() {
    assert_eq!(
        dir(Some("C:\\Users\\me\\AppData\\Local".to_string())).as_deref(),
        Some("C:\\Users\\me\\AppData\\Local\\Torch Overlay Diagnostics")
    );
    assert_eq!(
        path(Some("C:\\Local\\".to_string())).as_deref(),
        Some("C:\\Local\\Torch Overlay Diagnostics\\debug.log")
    );
    assert_eq!(path(None), None);
    assert!(!needs_rotation(2 * 1024 * 1024));
    assert!(needs_rotation(2 * 1024 * 1024 + 1));
    assert_eq!(log_line("2026-05-04T06:00:00.000Z", "process starting"), "[2026-05-04T06:00:00.000Z] process starting");
}

#[test]
fn paths_compare_ignoring_ascii_case() {
    assert!(path_eq_ignore_ascii_case("C:\\Steam", "c:\\STEAM"));
    assert!(!path_eq_ignore_ascii_case("C:\\Steam", "C:\\Steam2"));
    let mut paths = vec!["C:\\Steam".to_string()];
    push_unique_path(&mut paths, "c:\\steam".to_string());
    push_unique_path(&mut paths, "D:\\Steam".to_string());
    assert_eq!(paths, vec!["C:\\Steam".to_string(), "D:\\Steam".to_string()]);
}

#[test]
fn steam_paths() {
    assert_eq!(
        log_under_root("D:\\SteamLibrary"),
        default_log_path()
    );
    assert_eq!(
        library_file_path("C:\\Program Files (x86)\\Steam"),
        "C:\\Program Files (x86)\\Steam\\steamapps\\libraryfolders.vdf"
    );
    let roots = steam_install_roots(Some("C:\\Program Files (x86)".to_string()), None);
    assert_eq!(roots[0], "C:\\Program Files (x86)\\Steam");
    assert_eq!(roots[1], "C:\\Steam");
    assert_eq!(roots.len(), 72);
    assert_eq!(steam_install_roots(None, None).len(), 72);
}

#[test]
fn reads_library_folders() {
    assert_eq!(
        quoted_values(r#"  "path"		"D:\\SteamLibrary"  "#),
        vec!["path".to_string(), "D:\\SteamLibrary".to_string()]
    );
    let raw = "\"libraryfolders\"\n{\n\t\"0\"\n\t{\n\t\t\"path\"\t\t\"C:\\\\Program Files (x86)\\\\Steam\"\n\t}\n\t\"1\"\t\t\"E:\\\\Games\"\n\t\"path\"\t\t\"c:\\\\program files (x86)\\\\steam\"\n}\n";
    assert_eq!(
        parse_steam_library_paths(raw),
        vec!["C:\\Program Files (x86)\\Steam".to_string(), "E:\\Games".to_string()]
    );
    let roots = steam_library_roots(
        &vec!["C:\\Steam".to_string(), "D:\\Steam".to_string()],
        &vec![Some("\"path\" \"E:\\\\Lib\"\n".to_string()), None],
    );
    assert_eq!(
        roots,
        vec!["C:\\Steam".to_string(), "E:\\Lib".to_string(), "D:\\Steam".to_string()]
    );
}

#[test]
fn candidates_in_order_without_repeats() {
    let candidates = game_log_candidates(
        Some("X:\\custom\\UE_game.log".to_string()),
        Some(default_log_path().to_lowercase()),
        &vec!["E:\\Lib".to_string()],
    );
    assert_eq!(candidates[0].source, "env:TORCH_OVERLAY_GAME_LOG");
    assert_eq!(candidates[1].source, "manual-setting");
    assert_eq!(candidates[2].source, "steam-libraryfolders");
    assert_eq!(
        candidates[2].path,
        "E:\\Lib\\steamapps\\common\\Torchlight Infinite\\UE_game\\TorchLight\\Saved\\Logs\\UE_game.log"
    );
    assert_eq!(candidates[3].source, "drive-scan");
    assert_eq!(
        candidates[3].path,
        "C:\\SteamLibrary\\steamapps\\common\\Torchlight Infinite\\UE_game\\TorchLight\\Saved\\Logs\\UE_game.log"
    );
    // The default path repeats the manual one, and D:\SteamLibrary repeats it too.
    assert_eq!(candidates.len(), 3 + 96 - 1);
    let exists: Vec<bool> = candidates.iter().map(|c| c.source == "steam-libraryfolders").collect();
    assert_eq!(resolve_game_log_path(&candidates, &exists), candidates[2].path);
    let none = vec![false; candidates.len()];
    assert_eq!(resolve_game_log_path(&candidates, &none), default_log_path());
}

#[test]
fn manual_setting_is_trimmed() {
    assert_eq!(manual_game_log_path("  D:\\x.log \n").as_deref(), Some("D:\\x.log"));
    assert_eq!(manual_game_log_path(" \n\t"), None);
}

#[test]
fn clock_reads_a_valid_instant() {
    let t = torch_overlay::clock::now();
    assert!(t.nanos < 1_000_000_000);
    assert!(t.secs > 1_600_000_000);
}

#[test]
fn item_row_labels() {
    let items = OfflineItems::from_entries(vec![("5080".to_string(), Some("shipped".to_string()))]);
    let ignored = vec![7000];
    let crystal = row_labels(CRYSTAL_BASE_ID, &ignored, Some("fixed"), None, &items);
    assert_eq!(crystal.item_name_ko.as_deref(), Some("최초의 불꽃 결정"));
    assert_eq!(crystal.price_source, "fixed");
    assert!(!crystal.unpriced && !crystal.ignored);
    let shipped = row_labels(5080, &ignored, None, None, &items);
    assert_eq!(shipped.item_name_ko.as_deref(), Some("shipped"));
    assert_eq!(shipped.price_source, "unpriced");
    assert!(shipped.unpriced);
    let stored = row_labels(5080, &ignored, Some("manual"), Some("kept".to_string()), &items);
    assert_eq!(stored.item_name_ko.as_deref(), Some("kept"));
    assert_eq!(stored.price_source, "manual");
    let skipped = row_labels(7000, &ignored, None, None, &items);
    assert!(skipped.ignored && !skipped.unpriced);
    assert_eq!(skipped.price_source, "ignored");
    assert_eq!(skipped.item_name_ko, None);
}

#[test]
fn joining_onto_a_bare_drive_adds_no_separator() {
    assert_eq!(join_path_exec("C:", "Steam"), "C:Steam");
    assert_eq!(join_path_exec("C:\\", "Steam"), "C:\\Steam");
    assert_eq!(join_path_exec("C:\\Games", "Steam"), "C:\\Games\\Steam");
    assert_eq!(join_path_exec("", "Steam"), "Steam");
}

#[test]
fn zone_tables_must_be_in_key_order() {
    let ordered = OfflineMaps::from_ordered(
        vec![("SD_A".to_string(), "a".to_string()), ("SD_B".to_string(), "b".to_string())],
        Vec::new(),
        vec![("X".to_string(), vec![("1".to_string(), "p".to_string()), ("2".to_string(), "q".to_string())])],
    );
    assert_eq!(ordered.unwrap().lookup_map_name("SD_B", None).as_deref(), Some("b"));
    let unordered = OfflineMaps::from_ordered(
        vec![("SD_B".to_string(), "b".to_string()), ("SD_A".to_string(), "a".to_string())],
        Vec::new(),
        Vec::new(),
    );
    assert!(unordered.is_none());
    let repeated = OfflineMaps::from_ordered(
        Vec::new(),
        vec![("7".to_string(), "a".to_string()), ("7".to_string(), "b".to_string())],
        Vec::new(),
    );
    assert!(repeated.is_none());
    let inner = OfflineMaps::from_ordered(
        Vec::new(),
        Vec::new(),
        vec![("X".to_string(), vec![("2".to_string(), "p".to_string()), ("1".to_string(), "q".to_string())])],
    );
    assert!(inner.is_none());
    // A proper prefix sorts first, as `String`'s order has it.
    assert!(OfflineMaps::from_ordered(
        vec![("SD".to_string(), "a".to_string()), ("SD_A".to_string(), "b".to_string())],
        Vec::new(),
        Vec::new(),
    )
    .is_some());
}

#[test]
fn every_install_root_is_among_the_library_roots() {
    let installs = vec!["C:\\Steam".to_string(), "D:\\Steam".to_string(), "c:\\steam".to_string()];
    let files = vec![
        Some("\"path\" \"D:\\\\Steam\"\n\"path\" \"E:\\\\Lib\"\n".to_string()),
        None,
        None,
    ];
    let roots = steam_library_roots(&installs, &files);
    assert_eq!(
        roots,
        vec!["C:\\Steam".to_string(), "D:\\Steam".to_string(), "E:\\Lib".to_string()]
    );
    for install in &installs {
        assert!(roots.iter().any(|root| path_eq_ignore_ascii_case(root, install)));
    }
}

#[test]
fn gold_id_comes_from_the_last_gold_id_line() {
    let lines = vec![
        "+itemGoldId [111]".to_string(),
        "+prices+1+unitPrices+1 [0.5]".to_string(),
        "|      | +currency [100300]".to_string(),
        "+itemGoldId [222]".to_string(),
    ];
    let priced = vec![false, true, false, false];
    let response = torch_overlay::price::parse_price_response(&lines, &priced);
    assert_eq!(response.item_gold_id, Some(222));
    assert_eq!(response.raw_lines, lines);
}
