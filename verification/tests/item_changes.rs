use torch_overlay::log_lines::{inventory_delta, parse_item_update, ItemChangeKind};

#[test]
fn treats_first_update_as_inventory_baseline() {
    assert_eq!(inventory_delta(ItemChangeKind::Update, None, 8986), None);
    assert_eq!(
        inventory_delta(ItemChangeKind::Update, Some(8986), 8992),
        Some(6)
    );
    assert_eq!(
        inventory_delta(ItemChangeKind::Update, Some(8992), 8992),
        None
    );
    assert_eq!(
        inventory_delta(ItemChangeKind::Update, Some(8992), 8986),
        None
    );
}

#[test]
fn treats_add_as_new_inventory_delta() {
    assert_eq!(inventory_delta(ItemChangeKind::Add, None, 11), Some(11));
    assert_eq!(inventory_delta(ItemChangeKind::Add, Some(4), 1), Some(1));
}

#[test]
fn parses_add_and_update_item_change_kinds() {
    let update = parse_item_update(
        "[2026.05.05-03.57.28:287][738]TLLua: Display: [Game] ItemChange@ Update Id=5028_abc BagNum=584 in PageId=102 SlotId=9",
    )
    .expect("update item change should parse");
    assert_eq!(update.change_kind, ItemChangeKind::Update);
    assert_eq!(update.config_base_id, 5028);
    assert_eq!(update.bag_num, 584);

    let add = parse_item_update(
        "[2026.05.04-02.04.44:096][919]TLLua: Display: [Game] ItemChange@ Add Id=100300_def BagNum=11 in PageId=102 SlotId=0",
    )
    .expect("add item change should parse");
    assert_eq!(add.change_kind, ItemChangeKind::Add);
    assert_eq!(add.config_base_id, 100300);
    assert_eq!(add.bag_num, 11);
}
