use torch_overlay::offline::OfflineMaps;
use torch_overlay::parser::parse_log_snapshot;

/// The zone table entries these logs need; the shipped table is loaded by the
/// application from its JSON file.
fn zone_maps() -> OfflineMaps {
    OfflineMaps::new(
        vec![
            ("SD_GeBuLinYingDi".to_string(), "바람의 협곡".to_string()),
            ("SD_ZhongXiGaoQiang".to_string(), "종식의 벽".to_string()),
        ],
        Vec::new(),
        Vec::new(),
    )
}

#[test]
fn counts_only_pick_item_crystal_delta_inside_run() {
    let snapshot = parse_log_snapshot(
        r#"
[2026.05.04-06.00.00:000][  0]TLLua: MysteryAreaModel@UpdateMysteryMapDataList AreaId == 1000 AreaLv == 6
[2026.05.04-06.00.01:000][  0]Loading@ BeginLoadingScreen MapName = /Game/Art/Maps/01SD/SD_ZhongXiGaoQiang200/SD_ZhongXiGaoQiang200
[2026.05.04-06.01.00:000][  0]ItemChange@ ProtoName=PickItems start
[2026.05.04-06.01.00:000][  0]ItemChange@ Update Id=100300_1 BagNum=10 in PageId=102 SlotId=0
[2026.05.04-06.01.01:000][  0]ItemChange@ Update Id=100300_1 BagNum=14 in PageId=102 SlotId=0
[2026.05.04-06.01.01:000][  0]ItemChange@ ProtoName=PickItems end
[2026.05.04-06.02.00:000][  0]ItemChange@ ProtoName=XchgReceive start
[2026.05.04-06.02.00:000][  0]ItemChange@ Update Id=100300_1 BagNum=114 in PageId=102 SlotId=0
[2026.05.04-06.02.01:000][  0]ItemChange@ ProtoName=XchgReceive end
      "#,
        &zone_maps(),
    );

    assert_eq!(snapshot.current_run.map_name_ko, "종식의 벽");
    assert_eq!(snapshot.current_run.difficulty, "7-0");
    assert_eq!(snapshot.current_run.crystal, 4);
}

#[test]
fn uses_offline_korean_map_names_for_internal_codes() {
    let snapshot = parse_log_snapshot(
        r#"
[2026.05.04-07.37.07:003][555]TLShipping: Display: [Game] LevelMgr@ LevelUid, LevelType, LevelId = 1061011 3 4611
[2026.05.04-07.37.07:123][556]TLShipping: Display: [Game] Loading@ BeginLoadingScreen MapName = /Game/Art/Maps/01SD/SD_GeBuLinYingDi/SD_GeBuLinYingDi
      "#,
        &zone_maps(),
    );

    assert_eq!(snapshot.current_run.map_name_ko, "바람의 협곡");
    assert_eq!(snapshot.current_run.difficulty, "7-0");
}

#[test]
fn strips_numeric_suffix_after_exact_map_lookup_fails() {
    let snapshot = parse_log_snapshot(
        r#"
[2026.05.04-06.00.00:000][  0]TLLua: MysteryAreaModel@UpdateMysteryMapDataList AreaId == 1000 AreaLv == 6
[2026.05.04-06.00.01:000][  0]Loading@ BeginLoadingScreen MapName = /Game/Art/Maps/01SD/SD_ZhongXiGaoQiang200/SD_ZhongXiGaoQiang200
      "#,
        &zone_maps(),
    );

    assert_eq!(snapshot.current_run.map_name_ko, "종식의 벽");
}
