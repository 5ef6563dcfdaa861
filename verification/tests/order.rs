//! Pinned items and their order.
use aionui_db::order::{
    OrderItemRef, OrderItemType, OrderScene, PinOutcome, PinnedCursor, UserOrderRow, UserOrderStore,
    PIN_GAP,
};

const USER: &str = "user-1";
const OTHER_USER: &str = "user-2";
const NOW: i64 = 1_700_000_000_000;

fn store() -> UserOrderStore {
    UserOrderStore::new()
}

fn conv(id: &str) -> OrderItemRef {
    OrderItemRef::new(OrderItemType::Conversation, id)
}

fn team(id: &str) -> OrderItemRef {
    OrderItemRef::new(OrderItemType::Team, id)
}

#[test]
fn pin_inserts_first_row_at_base_key() {
    let mut store = store();
    let outcome = store.pin(USER, OrderScene::Pinned, &conv("c1"), NOW);
    assert_eq!(outcome, PinOutcome::Inserted);

    let rows = store.list_pinned(USER, OrderScene::Pinned, None, 10);
    assert_eq!(rows.len(), 1);
    assert_eq!(rows[0].item_id, "c1");
    assert_eq!(rows[0].order_key, PIN_GAP);
}

#[test]
fn pin_stacks_newest_on_top() {
    let mut store = store();
    store.pin(USER, OrderScene::Pinned, &conv("c1"), NOW);
    store.pin(USER, OrderScene::Pinned, &conv("c2"), NOW);
    store.pin(USER, OrderScene::Pinned, &team("t1"), NOW);

    // Ascending order_key => most-recently pinned first.
    let rows = store.list_pinned(USER, OrderScene::Pinned, None, 10);
    let ids: Vec<&str> = rows.iter().map(|r| r.item_id.as_str()).collect();
    assert_eq!(ids, vec!["t1", "c2", "c1"]);
    assert_eq!(rows[0].order_key, PIN_GAP - 2 * PIN_GAP);
    assert_eq!(rows[1].order_key, PIN_GAP - PIN_GAP);
    assert_eq!(rows[2].order_key, PIN_GAP);
}

#[test]
fn pin_is_idempotent() {
    let mut store = store();
    assert_eq!(store.pin(USER, OrderScene::Pinned, &conv("c1"), NOW), PinOutcome::Inserted);
    assert_eq!(store.pin(USER, OrderScene::Pinned, &conv("c1"), NOW), PinOutcome::AlreadyPinned);

    let rows = store.list_pinned(USER, OrderScene::Pinned, None, 10);
    assert_eq!(rows.len(), 1, "duplicate pin must not add a second row");
    assert_eq!(rows[0].order_key, PIN_GAP, "order_key preserved on no-op");
}

#[test]
fn unpin_reports_removal_then_noop() {
    let mut store = store();
    store.pin(USER, OrderScene::Pinned, &conv("c1"), NOW);

    assert!(store.unpin(USER, OrderScene::Pinned, &conv("c1")));
    assert!(
        !store.unpin(USER, OrderScene::Pinned, &conv("c1")),
        "second unpin is an idempotent no-op"
    );
    assert!(store.list_pinned(USER, OrderScene::Pinned, None, 10).is_empty());
}

#[test]
fn list_pinned_paginates_by_keyset() {
    let mut store = store();
    // Pin c1..c5; keys are 1000, 0, -1000, -2000, -3000 (newest lowest).
    for id in ["c1", "c2", "c3", "c4", "c5"] {
        store.pin(USER, OrderScene::Pinned, &conv(id), NOW);
    }

    let page1 = store.list_pinned(USER, OrderScene::Pinned, None, 2);
    let ids1: Vec<&str> = page1.iter().map(|r| r.item_id.as_str()).collect();
    assert_eq!(ids1, vec!["c5", "c4"]);

    let last = page1.last().unwrap();
    let cursor = PinnedCursor {
        order_key: last.order_key,
        item_type: OrderItemType::parse(&last.item_type).unwrap(),
        item_id: last.item_id.clone(),
    };
    let page2 = store.list_pinned(USER, OrderScene::Pinned, Some(&cursor), 2);
    let ids2: Vec<&str> = page2.iter().map(|r| r.item_id.as_str()).collect();
    assert_eq!(ids2, vec!["c3", "c2"], "keyset resumes strictly after cursor, no repeat");
}

#[test]
fn pinned_refs_returns_all_typed_refs() {
    let mut store = store();
    store.pin(USER, OrderScene::Pinned, &conv("c1"), NOW);
    store.pin(USER, OrderScene::Pinned, &team("t1"), NOW);

    let mut refs = store.pinned_refs(USER, OrderScene::Pinned);
    refs.sort_by(|a, b| a.item_id.cmp(&b.item_id));
    assert_eq!(refs, vec![conv("c1"), team("t1")]);
}

#[test]
fn remove_item_deletes_single_ref() {
    let mut store = store();
    store.pin(USER, OrderScene::Pinned, &conv("c1"), NOW);
    store.pin(USER, OrderScene::Pinned, &conv("c2"), NOW);

    store.remove_item(USER, &conv("c1"));
    let ids: Vec<String> =
        store.pinned_refs(USER, OrderScene::Pinned).into_iter().map(|r| r.item_id).collect();
    assert_eq!(ids, vec!["c2"]);
    // Idempotent: removing a gone item is fine.
    store.remove_item(USER, &conv("c1"));
}

#[test]
fn remove_items_batch_is_atomic() {
    let mut store = store();
    for id in ["c1", "c2", "c3"] {
        store.pin(USER, OrderScene::Pinned, &conv(id), NOW);
    }
    store.pin(USER, OrderScene::Pinned, &team("t1"), NOW);

    store.remove_items(USER, &vec![conv("c1"), conv("c3"), team("t1")]);
    let ids: Vec<String> =
        store.pinned_refs(USER, OrderScene::Pinned).into_iter().map(|r| r.item_id).collect();
    assert_eq!(ids, vec!["c2"]);

    // Empty batch is a no-op.
    store.remove_items(USER, &Vec::new());
    assert_eq!(store.pinned_refs(USER, OrderScene::Pinned).len(), 1);
}

#[test]
fn rows_are_scoped_per_user() {
    let mut store = store();
    store.pin(USER, OrderScene::Pinned, &conv("c1"), NOW);

    // A different user sees nothing and cannot unpin another user's row.
    assert!(store.list_pinned(OTHER_USER, OrderScene::Pinned, None, 10).is_empty());
    assert!(!store.unpin(OTHER_USER, OrderScene::Pinned, &conv("c1")));
    assert_eq!(store.list_pinned(USER, OrderScene::Pinned, None, 10).len(), 1);
}

#[test]
fn concurrent_pins_serialize_into_distinct_rows() {
    let mut store = store();
    // Two pins on the same empty scene, one after the other: both land as
    // distinct rows (no lost write, no duplicate key) with different order_keys.
    store.pin(USER, OrderScene::Pinned, &conv("c1"), NOW);
    store.pin(USER, OrderScene::Pinned, &conv("c2"), NOW);

    let rows = store.list_pinned(USER, OrderScene::Pinned, None, 10);
    assert_eq!(rows.len(), 2);
    assert_ne!(rows[0].order_key, rows[1].order_key, "keys must not collide");
}

#[test]
fn places_with_one_key_stand_by_kind_and_then_by_id() {
    let mut store = store();
    for (kind, id) in [("team", "a"), ("conversation", "z"), ("conversation", "b")] {
        store.rows.push(UserOrderRow {
            user_id: USER.into(),
            scene: "pinned".into(),
            item_type: kind.into(),
            item_id: id.into(),
            order_key: 7,
            created_at: 1,
            updated_at: 1,
        });
    }
    let rows = store.list_pinned(USER, OrderScene::Pinned, None, -1);
    let ids: Vec<&str> = rows.iter().map(|r| r.item_id.as_str()).collect();
    assert_eq!(ids, ["b", "z", "a"]);
    let cursor =
        PinnedCursor { order_key: 7, item_type: OrderItemType::Conversation, item_id: "b".into() };
    let rest = store.list_pinned(USER, OrderScene::Pinned, Some(&cursor), 10);
    let ids: Vec<&str> = rest.iter().map(|r| r.item_id.as_str()).collect();
    assert_eq!(ids, ["z", "a"]);
}

#[test]
fn a_place_of_an_unknown_kind_gives_no_ref() {
    let mut store = store();
    store.pin(USER, OrderScene::Pinned, &team("t1"), NOW);
    store.rows[0].item_type = "folder".into();
    assert!(store.pinned_refs(USER, OrderScene::Pinned).is_empty());
    assert_eq!(OrderItemType::parse("folder"), None);
    assert_eq!(OrderItemType::parse(OrderItemType::Team.as_str()), Some(OrderItemType::Team));
}

#[test]
fn paging_lists_every_place_once() {
    let mut store = store();
    for id in ["a", "b", "c", "d", "e"] {
        store.pin(USER, OrderScene::Pinned, &conv(id), NOW);
        store.pin(USER, OrderScene::Pinned, &team(id), NOW);
        store.pin(OTHER_USER, OrderScene::Pinned, &conv(id), NOW);
    }
    for row in store.rows.iter_mut().filter(|row| row.item_id < "d".to_owned()) {
        row.order_key = 7;
    }
    let whole = store.list_pinned(USER, OrderScene::Pinned, None, -1);
    assert_eq!(whole.len(), 10);
    for limit in [1, 3, 4, 10, 11] {
        let mut shown = store.list_pinned(USER, OrderScene::Pinned, None, limit);
        let mut last = shown.len() as i64;
        while last == limit {
            let row = shown.last().unwrap();
            let cursor = PinnedCursor {
                order_key: row.order_key,
                item_type: OrderItemType::parse(&row.item_type).unwrap(),
                item_id: row.item_id.clone(),
            };
            let page = store.list_pinned(USER, OrderScene::Pinned, Some(&cursor), limit);
            last = page.len() as i64;
            shown.extend(page);
        }
        assert_eq!(shown, whole);
    }
}

#[test]
fn an_item_that_is_pinned_needs_no_room_above_it() {
    let mut store = store();
    store.pin(USER, OrderScene::Pinned, &conv("c1"), NOW);
    store.rows[0].order_key = i64::MIN;
    assert_eq!(store.pin(USER, OrderScene::Pinned, &conv("c1"), NOW), PinOutcome::AlreadyPinned);
    assert_eq!(store.rows[0].order_key, i64::MIN);
}
