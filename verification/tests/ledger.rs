use asset_ledger::cli::{run_action, Action};
use asset_ledger::item::{
    add_item, collect_items, detail_item, list_items, remove_item, update_item_at, Item,
    StoreError,
};
use asset_ledger::codec::to_json;

fn rec(id: usize, item: &str, money: usize, description: &str, created: u64, updated: u64) -> Item {
    Item {
        id,
        item: item.to_string(),
        money,
        description: description.to_string(),
        created_at: created,
        update_at: updated,
    }
}

#[test]
fn round_trip_empty() {
    let items: Vec<Item> = Vec::new();
    let text = to_json(&items);
    assert_eq!(text, "[]");
    let back = collect_items(&text).unwrap();
    assert_eq!(back, items);
}

#[test]
fn round_trip_one() {
    let items = vec![rec(1, "Coffee", 350, "morning coffee", 1700000000, 1700000000)];
    let text = to_json(&items);
    assert_eq!(
        text,
        "[{\"id\":1,\"item\":\"Coffee\",\"money\":350,\"description\":\"morning coffee\",\"created_at\":1700000000,\"update_at\":1700000000}]"
    );
    let back = collect_items(&text).unwrap();
    assert_eq!(back, items);
}

#[test]
fn round_trip_many() {
    let items = vec![
        rec(1, "Coffee", 350, "morning", 1700000000, 1700000000),
        rec(2, "Lunch", 1200, "noodles", 1700000100, 1700000200),
        rec(3, "Book", 2400, "a novel", 1700000300, 1700000300),
    ];
    let text = to_json(&items);
    let back = collect_items(&text).unwrap();
    assert_eq!(back, items);
}

#[test]
fn round_trip_escapes() {
    let items = vec![rec(1, "say \"hi\"\\now", 1, "tab\there\nand\rthere", 0, 0)];
    let text = to_json(&items);
    let back = collect_items(&text).unwrap();
    assert_eq!(back, items);
}

#[test]
fn serialized_form_is_json() {
    let items = vec![rec(1, "Caf\u{00e9} \"au\" lait\\", 350, "with\nmilk", 1700000000, 1700000001)];
    let text = to_json(&items);
    let value: serde_json::Value = serde_json::from_str(&text).unwrap();
    let arr = value.as_array().unwrap();
    assert_eq!(arr.len(), 1);
    assert_eq!(arr[0].get("id").unwrap().as_u64().unwrap(), 1);
    assert_eq!(arr[0].get("item").unwrap().as_str().unwrap(), "Caf\u{00e9} \"au\" lait\\");
    assert_eq!(arr[0].get("money").unwrap().as_u64().unwrap(), 350);
    assert_eq!(arr[0].get("description").unwrap().as_str().unwrap(), "with\nmilk");
    assert_eq!(arr[0].get("created_at").unwrap().as_u64().unwrap(), 1700000000);
    assert_eq!(arr[0].get("update_at").unwrap().as_u64().unwrap(), 1700000001);
}

#[test]
fn load_empty_content_is_empty_ledger() {
    assert_eq!(collect_items("").unwrap(), Vec::<Item>::new());
    assert_eq!(collect_items("[]").unwrap(), Vec::<Item>::new());
}

#[test]
fn load_malformed_content_fails() {
    assert_eq!(collect_items("not json").unwrap_err(), StoreError::Parse);
    assert_eq!(collect_items("[{]").unwrap_err(), StoreError::Parse);
    assert_eq!(collect_items("[] ").unwrap_err(), StoreError::Parse);
}

#[test]
fn load_rejects_oversized_numbers() {
    let text = "[{\"id\":1,\"item\":\"a\",\"money\":99999999999999999999999999,\"description\":\"b\",\"created_at\":0,\"update_at\":0}]";
    assert_eq!(collect_items(text).unwrap_err(), StoreError::Parse);
}

#[test]
fn listing_keeps_long_labels_whole() {
    let text = add_item("", rec(0, "a label wider than twenty chars", 1, "d", 0, 0)).unwrap();
    let out = list_items(&text).unwrap();
    assert!(out.contains("a label wider than twenty chars"));
}

#[test]
fn append_assigns_next_id() {
    let text0 = "";
    let text1 = add_item(text0, rec(0, "Coffee", 350, "morning", 10, 10)).unwrap();
    let items1 = collect_items(&text1).unwrap();
    assert_eq!(items1.len(), 1);
    assert_eq!(items1[0].id, 1);
    let text2 = add_item(&text1, rec(0, "Lunch", 1200, "noodles", 20, 20)).unwrap();
    let items2 = collect_items(&text2).unwrap();
    assert_eq!(items2.len(), 2);
    assert_eq!(items2[1].id, 2);
    assert_eq!(items2[1].item, "Lunch");
    let text3 = add_item(&text2, rec(0, "Book", 2400, "a novel", 30, 30)).unwrap();
    let items3 = collect_items(&text3).unwrap();
    assert_eq!(items3.len(), 3);
    assert_eq!(items3[2].id, 3);
}

#[test]
fn remove_rejects_out_of_range_ids() {
    let text = add_item(
        &add_item("", rec(0, "Coffee", 350, "a", 1, 1)).unwrap(),
        rec(0, "Lunch", 1200, "b", 2, 2),
    )
    .unwrap();
    assert_eq!(remove_item(&text, 0).unwrap_err(), StoreError::InvalidId);
    assert_eq!(remove_item(&text, 3).unwrap_err(), StoreError::InvalidId);
}

#[test]
fn remove_deletes_exactly_one() {
    let text = add_item(
        &add_item("", rec(0, "Coffee", 350, "a", 1, 1)).unwrap(),
        rec(0, "Lunch", 1200, "b", 2, 2),
    )
    .unwrap();
    let text2 = remove_item(&text, 1).unwrap();
    let items = collect_items(&text2).unwrap();
    assert_eq!(items.len(), 1);
    assert_eq!(items[0].item, "Lunch");
    assert!(!text2.contains("Coffee"));
}

#[test]
fn update_preserves_identity_fields() {
    let text = add_item(
        &add_item("", rec(0, "Coffee", 350, "a", 11, 12)).unwrap(),
        rec(0, "Lunch", 1200, "b", 21, 22),
    )
    .unwrap();
    let text2 = update_item_at(&text, 2, "Dinner".to_string(), 3000, "sushi".to_string(), 99)
        .unwrap();
    let items = collect_items(&text2).unwrap();
    assert_eq!(items.len(), 2);
    assert_eq!(items[0], rec(1, "Coffee", 350, "a", 11, 12));
    assert_eq!(items[1].id, 2);
    assert_eq!(items[1].created_at, 21);
    assert_eq!(items[1].item, "Dinner");
    assert_eq!(items[1].money, 3000);
    assert_eq!(items[1].description, "sushi");
    assert_eq!(items[1].update_at, 99);
}

#[test]
fn update_goes_by_stored_id_after_removal() {
    let text = add_item(
        &add_item(
            &add_item("", rec(0, "Coffee", 350, "a", 1, 1)).unwrap(),
            rec(0, "Lunch", 1200, "b", 2, 2),
        )
        .unwrap(),
        rec(0, "Book", 2400, "c", 3, 3),
    )
    .unwrap();
    // Removal shifts positions but leaves the survivors' stored ids alone.
    let text2 = remove_item(&text, 1).unwrap();
    let survivors = collect_items(&text2).unwrap();
    assert_eq!(survivors[0].id, 2);
    assert_eq!(survivors[1].id, 3);
    // An update aims at the stored id, not the position.
    let text3 = update_item_at(&text2, 3, "Novel".to_string(), 2500, "c2".to_string(), 9)
        .unwrap();
    let items = collect_items(&text3).unwrap();
    assert_eq!(items[0].item, "Lunch");
    assert_eq!(items[1].item, "Novel");
    assert_eq!(items[1].id, 3);
}

#[test]
fn update_of_unknown_id_is_a_no_op() {
    let text = add_item("", rec(0, "Coffee", 350, "a", 11, 12)).unwrap();
    let text2 = update_item_at(&text, 7, "Dinner".to_string(), 3000, "sushi".to_string(), 99)
        .unwrap();
    assert_eq!(text2, text);
}

#[test]
fn listing_is_idempotent() {
    let text = add_item("", rec(0, "Coffee", 350, "a", 11, 12)).unwrap();
    let first = list_items(&text).unwrap();
    let second = list_items(&text).unwrap();
    assert_eq!(first, second);
}

#[test]
fn listing_format() {
    let text = add_item("", rec(0, "Coffee", 350, "morning", 11, 12)).unwrap();
    let out = list_items(&text).unwrap();
    let expected = format!("{:<5} {:<20} {:<20}\n{:<5} {:<20} {:<20}\n", "ID", "item", "money", 1, "Coffee", 350);
    assert_eq!(out, expected);
}

#[test]
fn listing_of_empty_ledger() {
    let out = list_items("").unwrap();
    let expected = format!("{:<5} {:<20} {:<20}\nno items\n", "ID", "item", "money");
    assert_eq!(out, expected);
}

#[test]
fn detail_renders_dates() {
    let text = add_item("", rec(0, "Coffee", 350, "morning coffee", 0, 1431648000)).unwrap();
    let out = detail_item(&text, 1).unwrap();
    assert!(out.contains("morning coffee"));
    assert!(out.contains("1970-01-01 00:00:00 UTC"));
    assert!(out.contains("2015-05-15 00:00:00 UTC"));
}

#[test]
fn detail_of_unknown_id_fails() {
    let text = add_item("", rec(0, "Coffee", 350, "a", 1, 1)).unwrap();
    assert_eq!(detail_item(&text, 2).unwrap_err(), StoreError::NotFound);
    assert_eq!(detail_item("", 1).unwrap_err(), StoreError::NotFound);
}

#[test]
fn error_messages() {
    assert_eq!(StoreError::InvalidId.message(), "Invalid Item ID");
    assert_eq!(StoreError::NotFound.message(), "Item not found");
    assert_eq!(StoreError::Parse.message(), "could not parse the asset file");
}

#[test]
fn item_new_starts_unnumbered() {
    let it = Item::new("Coffee".to_string(), 350, "morning".to_string());
    assert_eq!(it.id, 0);
    assert_eq!(it.item, "Coffee");
    assert_eq!(it.money, 350);
    assert_eq!(it.description, "morning");
    assert_eq!(it.created_at, it.update_at);
}

#[test]
fn scenario_add_list_detail_remove() {
    let action = Action::Add {
        item: "Coffee".to_string(),
        money: 350,
        desciption: "morning".to_string(),
    };
    let outcome = run_action(action, "").unwrap();
    let text = outcome.new_content.unwrap();
    assert!(outcome.report.is_none());

    let listed = run_action(Action::List, &text).unwrap().report.unwrap();
    let row = format!("{:<5} {:<20} {:<20}\n", 1, "Coffee", 350);
    assert!(listed.ends_with(&row));

    let detail = run_action(Action::Detail { id: 1 }, &text).unwrap().report.unwrap();
    assert!(detail.contains("morning"));
    let items = collect_items(&text).unwrap();
    assert_eq!(items[0].created_at, items[0].update_at);

    let removed = run_action(Action::Remove { id: 1 }, &text).unwrap();
    let text2 = removed.new_content.unwrap();
    let listed2 = run_action(Action::List, &text2).unwrap().report.unwrap();
    assert!(listed2.ends_with("no items\n"));
}

#[test]
fn dispatch_update_changes_fields() {
    let text = add_item("", rec(0, "Coffee", 350, "a", 1, 1)).unwrap();
    let updated = run_action(
        Action::Update {
            id: 1,
            item: "Tea".to_string(),
            money: 200,
            desciption: "green".to_string(),
        },
        &text,
    )
    .unwrap();
    let items = collect_items(&updated.new_content.unwrap()).unwrap();
    assert_eq!(items[0].item, "Tea");
    assert_eq!(items[0].money, 200);
    assert_eq!(items[0].description, "green");
    assert_eq!(items[0].id, 1);
    assert_eq!(items[0].created_at, 1);
}

#[test]
fn dispatch_surfaces_errors() {
    assert_eq!(run_action(Action::List, "junk").unwrap_err(), StoreError::Parse);
    assert_eq!(run_action(Action::Remove { id: 1 }, "").unwrap_err(), StoreError::InvalidId);
    assert_eq!(run_action(Action::Detail { id: 1 }, "[]").unwrap_err(), StoreError::NotFound);
}
