//! The items that a user has pinned, in their order.
use crate::table::{
    any_where, delete_where, exists_in, in_strict_order, law_least, law_limited_listing,
    law_ordered, law_removed, law_selected, law_selected_once, law_strict_order_is_unique, least,
    least_where, limited, model, ordered, orders, removed, select_where, selected, sort_rows,
    take_limited, Record,
};
use crate::text::{before, lemma_text_order, lemma_text_transitive, same, text_before};
use vstd::prelude::*;

verus! {

/// Gap between adjacent pins; a fresh top pin claims one gap above the top.
pub const PIN_GAP: i64 = 1000;

/// An item at a place in one of a user's lists.
#[derive(Debug, Clone, PartialEq, Eq)]
pub struct UserOrderRow<T = String> {
    pub user_id: T,
    pub scene: T,
    pub item_type: T,
    pub item_id: T,
    pub order_key: i64,
    pub created_at: i64,
    pub updated_at: i64,
}

impl View for UserOrderRow<String> {
    type V = UserOrderRow<Seq<char>>;

    open spec fn view(&self) -> UserOrderRow<Seq<char>> {
        UserOrderRow {
            user_id: self.user_id@,
            scene: self.scene@,
            item_type: self.item_type@,
            item_id: self.item_id@,
            order_key: self.order_key,
            created_at: self.created_at,
            updated_at: self.updated_at,
        }
    }
}

impl Record for UserOrderRow<String> {
    fn duplicate(&self) -> (copy: Self) {
        UserOrderRow {
            user_id: self.user_id.clone(),
            scene: self.scene.clone(),
            item_type: self.item_type.clone(),
            item_id: self.item_id.clone(),
            order_key: self.order_key,
            created_at: self.created_at,
            updated_at: self.updated_at,
        }
    }
}

/// The model of an item at a place.
pub type Place = UserOrderRow<Seq<char>>;

/// What kind of thing an item is.
#[derive(Debug, Clone, Copy, PartialEq, Eq, Structural)]
pub enum OrderItemType {
    Conversation,
    Team,
}

/// Which of a user's lists is meant.
#[derive(Debug, Clone, Copy, PartialEq, Eq, Structural)]
pub enum OrderScene {
    Pinned,
}

/// An item, by its kind and its id.
#[derive(Debug, Clone, PartialEq, Eq)]
pub struct OrderItemRef<T = String> {
    pub item_type: OrderItemType,
    pub item_id: T,
}

impl View for OrderItemRef<String> {
    type V = OrderItemRef<Seq<char>>;

    open spec fn view(&self) -> OrderItemRef<Seq<char>> {
        OrderItemRef { item_type: self.item_type, item_id: self.item_id@ }
    }
}

/// The model of an item.
pub type Item = OrderItemRef<Seq<char>>;

/// What pinning an item came to.
#[derive(Debug, Clone, Copy, PartialEq, Eq, Structural)]
pub enum PinOutcome {
    Inserted,
    AlreadyPinned,
}

/// The place behind which a page starts.
#[derive(Debug, Clone, PartialEq, Eq)]
pub struct PinnedCursor {
    pub order_key: i64,
    pub item_type: OrderItemType,
    pub item_id: String,
}

/// The text of a kind.
pub open spec fn kind_text(kind: OrderItemType) -> Seq<char> {
    match kind {
        OrderItemType::Conversation => "conversation"@,
        OrderItemType::Team => "team"@,
    }
}

/// The text of a list.
pub open spec fn scene_text(scene: OrderScene) -> Seq<char> {
    match scene {
        OrderScene::Pinned => "pinned"@,
    }
}

/// The kind that a text names.
pub open spec fn kind_of(text: Seq<char>) -> Option<OrderItemType> {
    if text == "conversation"@ {
        Some(OrderItemType::Conversation)
    } else if text == "team"@ {
        Some(OrderItemType::Team)
    } else {
        None
    }
}

impl OrderItemType {
    /// The kind as it is stored.
    pub fn as_str(self) -> (text: &'static str)
        ensures
            text@ == kind_text(self),
    {
        match self {
            OrderItemType::Conversation => "conversation",
            OrderItemType::Team => "team",
        }
    }

    /// The kind that a stored text names.
    pub fn parse(text: &str) -> (kind: Option<Self>)
        ensures
            kind == kind_of(text@),
    {
        if same(text, "conversation") {
            Some(OrderItemType::Conversation)
        } else if same(text, "team") {
            Some(OrderItemType::Team)
        } else {
            None
        }
    }
}

impl OrderScene {
    /// The list as it is stored.
    pub fn as_str(self) -> (text: &'static str)
        ensures
            text@ == scene_text(self),
    {
        match self {
            OrderScene::Pinned => "pinned",
        }
    }
}

impl OrderItemRef<String> {
    /// An item, by its kind and its id.
    pub fn new(item_type: OrderItemType, item_id: &str) -> (item: Self)
        ensures
            item@ == (OrderItemRef { item_type, item_id: item_id@ }),
    {
        OrderItemRef { item_type, item_id: item_id.to_owned() }
    }
}

// ----------------------------------------------------------------------------
// The model
// ----------------------------------------------------------------------------

/// The places of a user's list.
pub open spec fn in_scene(user_id: Seq<char>, scene: OrderScene) -> spec_fn(Place) -> bool {
    |row: Place| row.user_id == user_id && row.scene == scene_text(scene)
}

/// The places of an item, in every list of the user.
pub open spec fn of_item(user_id: Seq<char>, item: Item) -> spec_fn(Place) -> bool {
    |row: Place|
        row.user_id == user_id && row.item_type == kind_text(item.item_type) && row.item_id
            == item.item_id
}

/// The place of an item in a list.
pub open spec fn pinned_at(
    user_id: Seq<char>,
    scene: OrderScene,
    item: Item,
) -> spec_fn(Place) -> bool {
    |row: Place| in_scene(user_id, scene)(row) && of_item(user_id, item)(row)
}

/// The order of places by their key alone.
pub open spec fn higher() -> spec_fn(Place, Place) -> bool {
    |a: Place, b: Place| a.order_key < b.order_key
}

/// The key of the top of a list.
pub open spec fn top_key(rows: Seq<Place>, user_id: Seq<char>, scene: OrderScene) -> Option<i64> {
    match least(rows, in_scene(user_id, scene), higher()) {
        Some(row) => Some(row.order_key),
        None => None,
    }
}

/// The key of a new top of a list.
pub open spec fn next_key(rows: Seq<Place>, user_id: Seq<char>, scene: OrderScene) -> int {
    match top_key(rows, user_id, scene) {
        Some(key) => key - PIN_GAP,
        None => PIN_GAP as int,
    }
}

/// The place of a newly pinned item.
pub open spec fn new_place(
    rows: Seq<Place>,
    user_id: Seq<char>,
    scene: OrderScene,
    item: Item,
    now: i64,
) -> Place {
    UserOrderRow {
        user_id,
        scene: scene_text(scene),
        item_type: kind_text(item.item_type),
        item_id: item.item_id,
        order_key: next_key(rows, user_id, scene) as i64,
        created_at: now,
        updated_at: now,
    }
}

/// The places after an item was pinned, and what that came to.
pub open spec fn pin_step(
    rows: Seq<Place>,
    user_id: Seq<char>,
    scene: OrderScene,
    item: Item,
    now: i64,
) -> (Seq<Place>, PinOutcome) {
    if exists_in(rows, pinned_at(user_id, scene, item)) {
        (rows, PinOutcome::AlreadyPinned)
    } else {
        (rows.push(new_place(rows, user_id, scene, item, now)), PinOutcome::Inserted)
    }
}

/// The order of a list: by key, then by kind and id.
pub open spec fn comes_before(a: Place, b: Place) -> bool {
    ||| a.order_key < b.order_key
    ||| a.order_key == b.order_key && (text_before(a.item_type, b.item_type) || (a.item_type
        == b.item_type && text_before(a.item_id, b.item_id)))
}

/// The order of a list.
pub open spec fn list_order() -> spec_fn(Place, Place) -> bool {
    |a: Place, b: Place| comes_before(a, b)
}

/// Whether a place is behind a cursor.
pub open spec fn is_behind(row: Place, cursor: PinnedCursor) -> bool {
    ||| row.order_key > cursor.order_key
    ||| row.order_key == cursor.order_key && (text_before(
        kind_text(cursor.item_type),
        row.item_type,
    ) || (row.item_type == kind_text(cursor.item_type) && text_before(
        cursor.item_id@,
        row.item_id,
    )))
}

/// The places of a list that are behind a cursor, where there is one.
pub open spec fn listed(
    user_id: Seq<char>,
    scene: OrderScene,
    after: Option<PinnedCursor>,
) -> spec_fn(
    Place,
) -> bool {
    |row: Place|
        in_scene(user_id, scene)(row) && (after matches Some(cursor) ==> is_behind(row, cursor))
}

/// A page of a list.
pub open spec fn pinned_page(
    rows: Seq<Place>,
    user_id: Seq<char>,
    scene: OrderScene,
    after: Option<PinnedCursor>,
    limit: i64,
) -> Seq<Place> {
    limited(ordered(selected(rows, listed(user_id, scene, after)), list_order()), limit, 0)
}

/// The items at places; places of an unknown kind are passed over.
pub open spec fn items_at(rows: Seq<Place>) -> Seq<Item>
    decreases rows.len(),
{
    if rows.len() == 0 {
        Seq::empty()
    } else {
        match kind_of(rows.last().item_type) {
            Some(item_type) => items_at(rows.drop_last()).push(
                OrderItemRef { item_type, item_id: rows.last().item_id },
            ),
            None => items_at(rows.drop_last()),
        }
    }
}

/// The places of any of some items.
pub open spec fn of_any(user_id: Seq<char>, items: Seq<Item>) -> spec_fn(Place) -> bool {
    |row: Place| exists|j: int| 0 <= j < items.len() && of_item(user_id, #[trigger] items[j])(row)
}

// ----------------------------------------------------------------------------
// The same in running code
// ----------------------------------------------------------------------------

/// The pinned items of every user.
#[derive(Debug, Clone, PartialEq, Eq)]
pub struct UserOrderStore {
    pub rows: Vec<UserOrderRow>,
}

impl View for UserOrderStore {
    type V = Seq<Place>;

    open spec fn view(&self) -> Seq<Place> {
        model(self.rows@)
    }
}

fn is_in_scene(row: &UserOrderRow, user_id: &str, scene: OrderScene) -> (yes: bool)
    ensures
        yes == in_scene(user_id@, scene)(row@),
{
    same(row.user_id.as_str(), user_id) && same(row.scene.as_str(), scene.as_str())
}

fn is_of_item(row: &UserOrderRow, user_id: &str, item: &OrderItemRef) -> (yes: bool)
    ensures
        yes == of_item(user_id@, item@)(row@),
{
    same(row.user_id.as_str(), user_id) && same(
        row.item_type.as_str(),
        item.item_type.as_str(),
    ) && same(row.item_id.as_str(), item.item_id.as_str())
}

fn is_of_any(row: &UserOrderRow, user_id: &str, items: &Vec<OrderItemRef>) -> (yes: bool)
    ensures
        yes == of_any(user_id@, model(items@))(row@),
{
    let mut i: usize = 0;
    while i < items.len()
        invariant
            i <= items.len(),
            forall|j: int|
                0 <= j < i ==> !of_item(user_id@, #[trigger] model(items@)[j])(row@),
        decreases items.len() - i,
    {
        assert(model(items@)[i as int] == items[i as int]@);
        if is_of_item(row, user_id, &items[i]) {
            return true;
        }
        i = i + 1;
    }
    false
}

fn stands_before(a: &UserOrderRow, b: &UserOrderRow) -> (yes: bool)
    ensures
        yes == comes_before(a@, b@),
{
    a.order_key < b.order_key || (a.order_key == b.order_key && (before(
        a.item_type.as_str(),
        b.item_type.as_str(),
    ) || (same(a.item_type.as_str(), b.item_type.as_str()) && before(
        a.item_id.as_str(),
        b.item_id.as_str(),
    ))))
}

fn stands_behind(row: &UserOrderRow, cursor: &PinnedCursor) -> (yes: bool)
    ensures
        yes == is_behind(row@, *cursor),
{
    row.order_key > cursor.order_key || (row.order_key == cursor.order_key && (before(
        cursor.item_type.as_str(),
        row.item_type.as_str(),
    ) || (same(row.item_type.as_str(), cursor.item_type.as_str()) && before(
        cursor.item_id.as_str(),
        row.item_id.as_str(),
    ))))
}

impl UserOrderStore {
    /// Without any pinned item.
    pub fn new() -> (store: Self)
        ensures
            store@ == Seq::<Place>::empty(),
    {
        let store = UserOrderStore { rows: Vec::new() };
        assert(store@ =~= Seq::<Place>::empty());
        store
    }

    /// Pins an item on top of a list, unless it is there.
    pub fn pin(
        &mut self,
        user_id: &str,
        scene: OrderScene,
        item: &OrderItemRef,
        now: i64,
    ) -> (outcome:
        PinOutcome)
        requires
            exists_in(old(self)@, pinned_at(user_id@, scene, item@)) || next_key(
                old(self)@,
                user_id@,
                scene,
            ) >= i64::MIN,
        ensures
            (final(self)@, outcome) == pin_step(old(self)@, user_id@, scene, item@, now),
    {
        let ghost here = pinned_at(user_id@, scene, item@);
        let known = any_where(
            &self.rows,
            |row: &UserOrderRow| -> (yes: bool)
                ensures yes == here(row@)
                { is_in_scene(row, user_id, scene) && is_of_item(row, user_id, item) },
            Ghost(here),
        );
        if known {
            return PinOutcome::AlreadyPinned;
        }
        let top = least_where(
            &self.rows,
            |row: &UserOrderRow| -> (yes: bool)
                ensures yes == in_scene(user_id@, scene)(row@)
                { is_in_scene(row, user_id, scene) },
            |a: &UserOrderRow, b: &UserOrderRow| -> (yes: bool)
                ensures yes == higher()(a@, b@)
                { a.order_key < b.order_key },
            Ghost(in_scene(user_id@, scene)),
            Ghost(higher()),
        );
        let order_key: i64 = match top {
            Some(at) => self.rows[at].order_key - PIN_GAP,
            None => PIN_GAP,
        };
        let row = UserOrderRow {
            user_id: user_id.to_owned(),
            scene: scene.as_str().to_owned(),
            item_type: item.item_type.as_str().to_owned(),
            item_id: item.item_id.clone(),
            order_key,
            created_at: now,
            updated_at: now,
        };
        let ghost start = self.rows@;
        self.rows.push(row);
        assert(model(self.rows@) =~= model(start).push(row@));
        PinOutcome::Inserted
    }

    /// Takes an item out of a list, and says whether it was there.
    pub fn unpin(&mut self, user_id: &str, scene: OrderScene, item: &OrderItemRef) -> (gone: bool)
        ensures
            final(self)@ == removed(old(self)@, pinned_at(user_id@, scene, item@)),
            gone == exists_in(old(self)@, pinned_at(user_id@, scene, item@)),
    {
        let ghost here = pinned_at(user_id@, scene, item@);
        let known = any_where(
            &self.rows,
            |row: &UserOrderRow| -> (yes: bool)
                ensures yes == here(row@)
                { is_in_scene(row, user_id, scene) && is_of_item(row, user_id, item) },
            Ghost(here),
        );
        let _count: u64 = delete_where(
            &mut self.rows,
            |row: &UserOrderRow| -> (yes: bool)
                ensures yes == here(row@)
                { is_in_scene(row, user_id, scene) && is_of_item(row, user_id, item) },
            Ghost(here),
        );
        known
    }

    /// A page of a list, from its top or from behind a place.
    pub fn list_pinned(
        &self,
        user_id: &str,
        scene: OrderScene,
        after: Option<&PinnedCursor>,
        limit: i64,
    ) -> (list: Vec<UserOrderRow>)
        ensures
            model(list@) == pinned_page(
                self@,
                user_id@,
                scene,
                match after {
                    Some(cursor) => Some(*cursor),
                    None => None,
                },
                limit,
            ),
    {
        let ghost hit = listed(
            user_id@,
            scene,
            match after {
                Some(cursor) => Some(*cursor),
                None => None,
            },
        );
        let hits = select_where(
            &self.rows,
            |row: &UserOrderRow| -> (yes: bool)
                ensures yes == hit(row@)
                {
                    is_in_scene(row, user_id, scene) && match after {
                        Some(cursor) => stands_behind(row, cursor),
                        None => true,
                    }
                },
            Ghost(hit),
        );
        let sorted = sort_rows(
            hits,
            |a: &UserOrderRow, b: &UserOrderRow| -> (yes: bool)
                ensures yes == list_order()(a@, b@)
                { stands_before(a, b) },
            Ghost(list_order()),
        );
        take_limited(&sorted, limit, 0)
    }

    /// The items of a list.
    pub fn pinned_refs(&self, user_id: &str, scene: OrderScene) -> (list: Vec<OrderItemRef>)
        ensures
            model(list@) == items_at(selected(self@, in_scene(user_id@, scene))),
    {
        let rows = select_where(
            &self.rows,
            |row: &UserOrderRow| -> (yes: bool)
                ensures yes == in_scene(user_id@, scene)(row@)
                { is_in_scene(row, user_id, scene) },
            Ghost(in_scene(user_id@, scene)),
        );
        let ghost all = model(rows@);
        let mut list: Vec<OrderItemRef> = Vec::new();
        let mut i: usize = 0;
        assert(model(list@) =~= items_at(all.take(0)));
        while i < rows.len()
            invariant
                i <= rows.len(),
                all == model(rows@),
                model(list@) == items_at(all.take(i as int)),
            decreases rows.len() - i,
        {
            let ghost next = all.take(i as int + 1);
            assert(next.drop_last() =~= all.take(i as int));
            assert(next.last() == rows[i as int]@);
            match OrderItemType::parse(rows[i].item_type.as_str()) {
                Some(item_type) => {
                    let item = OrderItemRef { item_type, item_id: rows[i].item_id.clone() };
                    let ghost start = list@;
                    list.push(item);
                    assert(model(list@) =~= model(start).push(item@));
                },
                None => {},
            }
            i = i + 1;
        }
        assert(all.take(i as int) =~= all);
        list
    }

    /// Takes an item out of every list of a user.
    pub fn remove_item(&mut self, user_id: &str, item: &OrderItemRef)
        ensures
            final(self)@ == removed(old(self)@, of_item(user_id@, item@)),
    {
        let _count: u64 = delete_where(
            &mut self.rows,
            |row: &UserOrderRow| -> (yes: bool)
                ensures yes == of_item(user_id@, item@)(row@)
                { is_of_item(row, user_id, item) },
            Ghost(of_item(user_id@, item@)),
        );
    }

    /// Takes items out of every list of a user, all at once.
    pub fn remove_items(&mut self, user_id: &str, items: &Vec<OrderItemRef>)
        ensures
            final(self)@ == removed(old(self)@, of_any(user_id@, model(items@))),
    {
        let ghost hit = of_any(user_id@, model(items@));
        let _count: u64 = delete_where(
            &mut self.rows,
            |row: &UserOrderRow| -> (yes: bool)
                ensures yes == hit(row@)
                { is_of_any(row, user_id, items) },
            Ghost(hit),
        );
    }
}

// ----------------------------------------------------------------------------
// What pinning promises
// ----------------------------------------------------------------------------

proof fn lemma_list_order()
    ensures
        orders(list_order()),
        orders(higher()),
{
    let less = list_order();
    assert forall|a: Place, b: Place| #[trigger] less(a, b) implies !less(b, a) by {
        lemma_text_order(a.item_type, b.item_type);
        lemma_text_order(a.item_id, b.item_id);
    }
    assert forall|a: Place, b: Place, c: Place| #[trigger] less(a, c) && !less(b, c)
        implies #[trigger] less(
        a,
        b,
    ) by {
        lemma_text_order(a.item_type, b.item_type);
        lemma_text_order(a.item_type, c.item_type);
        lemma_text_order(b.item_type, c.item_type);
        lemma_text_order(a.item_id, b.item_id);
        lemma_text_order(a.item_id, c.item_id);
        lemma_text_order(b.item_id, c.item_id);
        if text_before(a.item_type, c.item_type) && text_before(c.item_type, b.item_type) {
            lemma_text_transitive(a.item_type, c.item_type, b.item_type);
        }
        if text_before(a.item_id, c.item_id) && text_before(c.item_id, b.item_id) {
            lemma_text_transitive(a.item_id, c.item_id, b.item_id);
        }
    }
}

/// Pinning an item twice changes nothing the second time.
pub proof fn law_pin_is_idempotent(
    rows: Seq<Place>,
    user_id: Seq<char>,
    scene: OrderScene,
    item: Item,
    now: i64,
    later: i64,
)
    ensures
        ({
            let once = pin_step(rows, user_id, scene, item, now).0;
            pin_step(once, user_id, scene, item, later) == (once, PinOutcome::AlreadyPinned)
        }),
{
    let once = pin_step(rows, user_id, scene, item, now).0;
    let here = pinned_at(user_id, scene, item);
    if !exists_in(rows, here) {
        assert(here(once[once.len() - 1]));
    }
}

/// A newly pinned item stands on top of its list.
pub proof fn law_pin_goes_on_top(
    rows: Seq<Place>,
    user_id: Seq<char>,
    scene: OrderScene,
    item: Item,
    now: i64,
    limit: i64,
)
    requires
        next_key(rows, user_id, scene) >= i64::MIN,
        !exists_in(rows, pinned_at(user_id, scene, item)),
        limit != 0,
    ensures
        ({
            let after = pin_step(rows, user_id, scene, item, now).0;
            let list = pinned_page(after, user_id, scene, None, limit);
            list.len() > 0 && list[0] == new_place(rows, user_id, scene, item, now)
        }),
{
    let new = new_place(rows, user_id, scene, item, now);
    let after = rows.push(new);
    let hit = listed(user_id, scene, None);
    let less = list_order();
    let some = selected(after, hit);
    let all = ordered(some, less);
    lemma_list_order();
    law_ordered(some, less);
    law_least(rows, in_scene(user_id, scene), higher());
    assert(after.drop_last() =~= rows);
    assert(hit(new));
    assert(some == selected(rows, hit).push(new));
    assert(some[some.len() - 1] == new);
    assert(some.contains(new));
    assert(all.contains(new));
    law_selected(rows, hit);
    if all[0] != new {
        let j = choose|j: int| 0 <= j < all.len() && all[j] == new;
        assert(all.contains(all[0]));
        assert(some.contains(all[0]));
        let m = choose|m: int| 0 <= m < some.len() && some[m] == all[0];
        let rest = selected(rows, hit);
        assert(rest[m] == all[0]);
        assert(rest.contains(all[0]));
        let k = choose|k: int| 0 <= k < rows.len() && rows[k] == all[0];
        assert(in_scene(user_id, scene)(rows[k]));
        assert(new.order_key < all[0].order_key);
        assert(less(all[j], all[0]));
    }
}

/// A page behind a place holds only places strictly behind it, in the order of
/// the list, so that nothing is listed twice.
pub proof fn law_page_goes_on(
    rows: Seq<Place>,
    user_id: Seq<char>,
    scene: OrderScene,
    cursor: PinnedCursor,
    limit: i64,
)
    ensures
        ({
            let list = pinned_page(rows, user_id, scene, Some(cursor), limit);
            &&& forall|i: int|
                0 <= i < list.len() ==> is_behind(#[trigger] list[i], cursor) && rows.contains(
                    list[i],
                ) && in_scene(user_id, scene)(list[i])
            &&& forall|i: int, j: int|
                0 <= i < j < list.len() ==> !comes_before(#[trigger] list[j], #[trigger] list[i])
        }),
{
    let hit = listed(user_id, scene, Some(cursor));
    let less = list_order();
    let some = selected(rows, hit);
    let all = ordered(some, less);
    lemma_list_order();
    law_ordered(some, less);
    law_selected(rows, hit);
    let list = pinned_page(rows, user_id, scene, Some(cursor), limit);
    assert forall|i: int| 0 <= i < list.len() implies is_behind(#[trigger] list[i], cursor)
        && rows.contains(list[i]) && in_scene(user_id, scene)(list[i]) by {
        assert(list[i] == all[i]);
        assert(all.contains(all[i]));
        assert(some.contains(all[i]));
    }
    assert forall|i: int, j: int| 0 <= i < j < list.len() implies !comes_before(
        #[trigger] list[j],
        #[trigger] list[i],
    ) by {
        assert(list[i] == all[i] && list[j] == all[j]);
        assert(!less(all[j], all[i]));
    }
}

/// Whether two places are of the same user, list and item.
pub open spec fn same_place(a: Place, b: Place) -> bool {
    &&& a.user_id == b.user_id
    &&& a.scene == b.scene
    &&& a.item_type == b.item_type
    &&& a.item_id == b.item_id
}

/// Whether no two places are of the same user, list and item.
pub open spec fn places_apart(rows: Seq<Place>) -> bool {
    forall|i: int, j: int|
        0 <= i < j < rows.len() ==> !same_place(#[trigger] rows[i], #[trigger] rows[j])
}

/// A user's whole list.
pub open spec fn whole_list(rows: Seq<Place>, user_id: Seq<char>, scene: OrderScene) -> Seq<Place> {
    ordered(selected(rows, listed(user_id, scene, None)), list_order())
}

/// Whether a cursor is the one behind a place.
pub open spec fn points_at(cursor: PinnedCursor, row: Place) -> bool {
    &&& cursor.order_key == row.order_key
    &&& kind_text(cursor.item_type) == row.item_type
    &&& cursor.item_id@ == row.item_id
}

/// Whether pages were listed one after the other: the first from the top, and
/// each other from behind the last place of the page before it.
pub open spec fn pages_follow(
    rows: Seq<Place>,
    user_id: Seq<char>,
    scene: OrderScene,
    limit: i64,
    pages: Seq<Seq<Place>>,
    cursors: Seq<PinnedCursor>,
) -> bool {
    &&& pages.len() == cursors.len() + 1
    &&& pages[0] == pinned_page(rows, user_id, scene, None, limit)
    &&& forall|k: int|
        0 <= k < cursors.len() ==> #[trigger] page_follows(
            rows,
            user_id,
            scene,
            limit,
            pages,
            cursors,
            k,
        )
}

/// Whether the page behind page `k` was listed from behind its last place.
pub open spec fn page_follows(
    rows: Seq<Place>,
    user_id: Seq<char>,
    scene: OrderScene,
    limit: i64,
    pages: Seq<Seq<Place>>,
    cursors: Seq<PinnedCursor>,
    k: int,
) -> bool {
    &&& pages[k].len() > 0
    &&& points_at(cursors[k], pages[k].last())
    &&& pages[k + 1] == pinned_page(rows, user_id, scene, Some(cursors[k]), limit)
}

/// The places of pages, one page after the other.
pub open spec fn places_of(pages: Seq<Seq<Place>>) -> Seq<Place>
    decreases pages.len(),
{
    if pages.len() == 0 {
        Seq::empty()
    } else {
        places_of(pages.drop_last()) + pages.last()
    }
}

/// Pinning and taking out keep places apart.
pub proof fn law_places_stay_apart(
    rows: Seq<Place>,
    user_id: Seq<char>,
    scene: OrderScene,
    item: Item,
    now: i64,
    gone: spec_fn(Place) -> bool,
)
    requires
        places_apart(rows),
    ensures
        places_apart(pin_step(rows, user_id, scene, item, now).0),
        places_apart(removed(rows, gone)),
    decreases rows.len(),
{
    let pinned = pin_step(rows, user_id, scene, item, now).0;
    assert forall|i: int, j: int| 0 <= i < j < pinned.len() implies !same_place(
        #[trigger] pinned[i],
        #[trigger] pinned[j],
    ) by {
        assert(pinned[i] == rows[i]);
        if j == rows.len() {
            assert(!pinned_at(user_id, scene, item)(rows[i]));
        }
    }
    if rows.len() > 0 {
        let head = rows.drop_last();
        law_places_stay_apart(head, user_id, scene, item, now, gone);
        law_removed(head, gone);
        let kept = removed(rows, gone);
        let rest = removed(head, gone);
        assert forall|i: int, j: int| 0 <= i < j < kept.len() implies !same_place(
            #[trigger] kept[i],
            #[trigger] kept[j],
        ) by {
            assert(kept[i] == rest[i]);
            if j == rest.len() {
                assert(rest.contains(rest[i]));
                assert(head.contains(rest[i]));
                let k = choose|k: int| 0 <= k < head.len() && head[k] == rest[i];
                assert(rows[k] == head[k] && rows[rows.len() - 1] == kept[j]);
            } else {
                assert(kept[j] == rest[j]);
            }
        }
    }
}

/// Of places that are apart, each in a list comes before every later one.
proof fn lemma_strict_list(
    rows: Seq<Place>,
    user_id: Seq<char>,
    scene: OrderScene,
    after: Option<PinnedCursor>,
)
    requires
        places_apart(rows),
    ensures
        ({
            let hit = listed(user_id, scene, after);
            let all = ordered(selected(rows, hit), list_order());
            &&& in_strict_order(all, list_order())
            &&& all.no_duplicates()
            &&& forall|row: Place| #[trigger]
                all.contains(row) == (rows.contains(row) && hit(row))
        }),
{
    broadcast use vstd::seq_lib::group_to_multiset_ensures;

    let hit = listed(user_id, scene, after);
    let less = list_order();
    let some = selected(rows, hit);
    let all = ordered(some, less);
    lemma_list_order();
    law_ordered(some, less);
    law_selected(rows, hit);
    assert(rows.no_duplicates()) by {
        assert forall|i: int, j: int|
            0 <= i < rows.len() && 0 <= j < rows.len() && i != j implies rows[i] != rows[j] by {
            if i < j {
                assert(!same_place(rows[i], rows[j]));
            } else {
                assert(!same_place(rows[j], rows[i]));
            }
        }
    }
    law_selected_once(rows, hit);
    some.lemma_multiset_has_no_duplicates();
    all.lemma_multiset_has_no_duplicates_conv();
    assert forall|row: Place| #[trigger] all.contains(row) == (rows.contains(row) && hit(row)) by {
        assert(all.contains(row) == some.contains(row));
        assert(some.contains(row) == (rows.contains(row) && hit(row)));
    }
    assert forall|i: int, j: int| 0 <= i < j < all.len() implies less(
        #[trigger] all[i],
        #[trigger] all[j],
    ) by {
        assert(!less(all[j], all[i]));
        assert(all[i] != all[j]);
        assert(all.contains(all[i]) && all.contains(all[j]));
        let a = choose|a: int| 0 <= a < rows.len() && rows[a] == all[i];
        let b = choose|b: int| 0 <= b < rows.len() && rows[b] == all[j];
        assert(a != b);
        if a < b {
            assert(!same_place(rows[a], rows[b]));
        } else {
            assert(!same_place(rows[b], rows[a]));
        }
        lemma_text_order(all[i].item_type, all[j].item_type);
        lemma_text_order(all[i].item_id, all[j].item_id);
    }
}

/// A page behind a place of the list goes on with the very next place.
pub proof fn law_page_is_next(
    rows: Seq<Place>,
    user_id: Seq<char>,
    scene: OrderScene,
    cursor: PinnedCursor,
    limit: i64,
    at: int,
)
    requires
        places_apart(rows),
        0 <= at < whole_list(rows, user_id, scene).len(),
        points_at(cursor, whole_list(rows, user_id, scene)[at]),
    ensures
        pinned_page(rows, user_id, scene, Some(cursor), limit) == limited(
            whole_list(rows, user_id, scene).skip(at + 1),
            limit,
            0,
        ),
{
    let less = list_order();
    let whole = whole_list(rows, user_id, scene);
    let hit = listed(user_id, scene, Some(cursor));
    let all = ordered(selected(rows, hit), less);
    let rest = whole.skip(at + 1);
    lemma_list_order();
    lemma_strict_list(rows, user_id, scene, None);
    lemma_strict_list(rows, user_id, scene, Some(cursor));
    assert(in_strict_order(rest, less)) by {
        assert forall|i: int, j: int| 0 <= i < j < rest.len() implies less(
            #[trigger] rest[i],
            #[trigger] rest[j],
        ) by {
            assert(rest[i] == whole[at + 1 + i] && rest[j] == whole[at + 1 + j]);
        }
    }
    assert forall|row: Place| #[trigger] all.contains(row) == rest.contains(row) by {
        if all.contains(row) {
            assert(rows.contains(row) && hit(row));
            assert(less(whole[at], row));
            assert(whole.contains(row));
            let k = choose|k: int| 0 <= k < whole.len() && whole[k] == row;
            if k < at {
                assert(less(whole[k], whole[at]));
            }
            assert(rest[k - at - 1] == row);
        }
        if rest.contains(row) {
            let k = choose|k: int| 0 <= k < rest.len() && rest[k] == row;
            assert(whole[at + 1 + k] == row);
            assert(less(whole[at], whole[at + 1 + k]));
            assert(whole.contains(row));
            assert(hit(row));
        }
    }
    law_strict_order_is_unique(all, rest, less);
}

/// Paging through a list, from its top and then from behind the last place of
/// each page, gives its places in their order, and gives all of them as soon as
/// a page comes that is not full. The list holds each of the user's places in it
/// once, and no other.
pub proof fn law_pages_list_all(
    rows: Seq<Place>,
    user_id: Seq<char>,
    scene: OrderScene,
    limit: i64,
    pages: Seq<Seq<Place>>,
    cursors: Seq<PinnedCursor>,
)
    requires
        places_apart(rows),
        limit > 0,
        pages_follow(rows, user_id, scene, limit, pages, cursors),
    ensures
        ({
            let whole = whole_list(rows, user_id, scene);
            let shown = places_of(pages);
            &&& shown.len() <= whole.len()
            &&& shown == whole.take(shown.len() as int)
            &&& pages.last().len() < limit ==> shown == whole
            &&& whole.no_duplicates()
            &&& forall|row: Place| #[trigger]
                whole.contains(row) == (rows.contains(row) && in_scene(user_id, scene)(row))
        }),
    decreases pages.len(),
{
    let whole = whole_list(rows, user_id, scene);
    let shown = places_of(pages);
    let head = pages.drop_last();
    lemma_strict_list(rows, user_id, scene, None);
    if cursors.len() == 0 {
        assert(places_of(head) =~= Seq::empty());
        assert(shown =~= pages[0]);
        assert(shown =~= whole.take(shown.len() as int));
        if pages.last().len() < limit {
            assert(shown =~= whole);
        }
    } else {
        let past = cursors.drop_last();
        assert(pages_follow(rows, user_id, scene, limit, head, past)) by {
            assert(head[0] == pages[0]);
            assert forall|k: int| 0 <= k < past.len() implies #[trigger] page_follows(
                rows,
                user_id,
                scene,
                limit,
                head,
                past,
                k,
            ) by {
                assert(page_follows(rows, user_id, scene, limit, pages, cursors, k));
                assert(past[k] == cursors[k]);
                assert(head[k] == pages[k] && head[k + 1] == pages[k + 1]);
            }
        }
        law_pages_list_all(rows, user_id, scene, limit, head, past);
        let before = places_of(head);
        let size = before.len() as int;
        let cursor = cursors[cursors.len() - 1];
        assert(page_follows(rows, user_id, scene, limit, pages, cursors, cursors.len() - 1));
        assert(head.last() == pages[cursors.len() - 1]);
        assert(points_at(cursor, head.last().last()));
        assert(before.last() == head.last().last());
        assert(before.last() == whole[size - 1]);
        law_page_is_next(rows, user_id, scene, cursor, limit, size - 1);
        assert(pages.last() == limited(whole.skip(size), limit, 0));
        assert(shown =~= whole.take(shown.len() as int));
        if pages.last().len() < limit {
            assert(shown =~= whole);
        }
    }
}

/// An item that was taken out of a list is not in it any more, and every other
/// place is as it was.
pub proof fn law_unpin_takes_out(
    rows: Seq<Place>,
    user_id: Seq<char>,
    scene: OrderScene,
    item: Item,
)
    ensures
        forall|row: Place| #[trigger]
            removed(rows, pinned_at(user_id, scene, item)).contains(row) == (rows.contains(row)
                && !pinned_at(user_id, scene, item)(row)),
{
    law_removed(rows, pinned_at(user_id, scene, item));
}

// ----------------------------------------------------------------------------
// What becomes of the places
// ----------------------------------------------------------------------------

/// Whether a place is an item's in a user's list.
pub open spec fn is_place_of(row: Place, user_id: Seq<char>, item: Item) -> bool {
    &&& row.user_id == user_id
    &&& row.item_id == item.item_id
    &&& row.item_type == (match item.item_type {
        OrderItemType::Conversation => "conversation"@,
        OrderItemType::Team => "team"@,
    })
}

/// Pinning an item that is pinned changes nothing and says so; any other item gets
/// a place of its own, before every other of the user's list, and the other places
/// stay.
pub proof fn law_pin_gives_a_place(
    rows: Seq<Place>,
    user_id: Seq<char>,
    scene: OrderScene,
    item: Item,
    now: i64,
)
    requires
        next_key(rows, user_id, scene) >= i64::MIN,
    ensures
        ({
            let (after, outcome) = pin_step(rows, user_id, scene, item, now);
            let pinned = exists|i: int|
                0 <= i < rows.len() && is_place_of(#[trigger] rows[i], user_id, item)
                    && rows[i].scene == "pinned"@;
            &&& pinned ==> after == rows && outcome == PinOutcome::AlreadyPinned
            &&& !pinned ==> {
                let new = after.last();
                &&& outcome == PinOutcome::Inserted
                &&& after == rows.push(new)
                &&& is_place_of(new, user_id, item)
                &&& new.scene == "pinned"@
                &&& new.created_at == now
                &&& new.updated_at == now
                &&& forall|i: int|
                    0 <= i < rows.len() && (#[trigger] rows[i]).user_id == user_id && rows[i].scene
                        == "pinned"@ ==> new.order_key < rows[i].order_key
            }
        }),
{
    let here = pinned_at(user_id, scene, item);
    let all = in_scene(user_id, scene);
    if exists_in(rows, here) {
        let i = choose|i: int| 0 <= i < rows.len() && here(#[trigger] rows[i]);
        assert(is_place_of(rows[i], user_id, item));
    } else {
        assert forall|i: int| 0 <= i < rows.len() implies !(is_place_of(
            #[trigger] rows[i],
            user_id,
            item,
        ) && rows[i].scene == "pinned"@) by {
            assert(!here(rows[i]));
        }
        assert(orders(higher()));
        law_least(rows, all, higher());
        assert forall|i: int|
            0 <= i < rows.len() && (#[trigger] rows[i]).user_id == user_id && rows[i].scene
                == "pinned"@ implies next_key(rows, user_id, scene) < rows[i].order_key by {
            assert(all(rows[i]));
            let top = least(rows, all, higher())->0;
            assert(!higher()(rows[i], top));
        }
    }
}

/// Taking an item out of a list takes that place and no other; an item, or items,
/// that are gone lose their places in every list of the user's, and nothing else
/// changes.
pub proof fn law_places_are_given_up(
    rows: Seq<Place>,
    user_id: Seq<char>,
    scene: OrderScene,
    item: Item,
    items: Seq<Item>,
)
    ensures
        forall|row: Place| #[trigger]
            removed(rows, pinned_at(user_id, scene, item)).contains(row) <==> rows.contains(row)
                && !(is_place_of(row, user_id, item) && row.scene == "pinned"@),
        forall|row: Place| #[trigger]
            removed(rows, of_item(user_id, item)).contains(row) <==> rows.contains(row)
                && !is_place_of(row, user_id, item),
        forall|row: Place| #[trigger]
            removed(rows, of_any(user_id, items)).contains(row) <==> rows.contains(row) && forall|
                j: int,
            |
                0 <= j < items.len() ==> !is_place_of(row, user_id, #[trigger] items[j]),
{
    law_removed(rows, pinned_at(user_id, scene, item));
    law_removed(rows, of_item(user_id, item));
    law_removed(rows, of_any(user_id, items));
    assert forall|row: Place| #[trigger]
        removed(rows, of_any(user_id, items)).contains(row) <==> rows.contains(row) && forall|
            j: int,
        |
            0 <= j < items.len() ==> !is_place_of(row, user_id, #[trigger] items[j]) by {
        if of_any(user_id, items)(row) {
            let j = choose|j: int|
                0 <= j < items.len() && of_item(user_id, #[trigger] items[j])(row);
            assert(is_place_of(row, user_id, items[j]));
        } else {
            assert forall|j: int| 0 <= j < items.len() implies !is_place_of(
                row,
                user_id,
                #[trigger] items[j],
            ) by {
                assert(!of_item(user_id, items[j])(row));
            }
        }
    }
}

/// A page of a list holds only places of the user's in it, no more than asked for,
/// in the order of their keys, and all of them where there is room and no cursor.
pub proof fn law_places_are_listed(
    rows: Seq<Place>,
    user_id: Seq<char>,
    scene: OrderScene,
    limit: i64,
)
    ensures
        ({
            let list = pinned_page(rows, user_id, scene, None, limit);
            &&& limit >= 0 ==> list.len() <= limit
            &&& forall|i: int|
                0 <= i < list.len() ==> rows.contains(#[trigger] list[i]) && list[i].user_id
                    == user_id && list[i].scene == "pinned"@
            &&& forall|i: int, j: int|
                0 <= i < j < list.len() ==> (#[trigger] list[i]).order_key <= (
                #[trigger] list[j]).order_key
            &&& limit < 0 || list.len() < limit ==> forall|row: Place|
                rows.contains(row) && row.user_id == user_id && row.scene == "pinned"@
                    ==> #[trigger] list.contains(row)
        }),
{
    let hit = listed(user_id, scene, None);
    let less = list_order();
    let list = pinned_page(rows, user_id, scene, None, limit);
    lemma_list_order();
    law_limited_listing(rows, hit, less, limit, 0);
    assert forall|i: int| 0 <= i < list.len() implies rows.contains(#[trigger] list[i])
        && list[i].user_id == user_id && list[i].scene == "pinned"@ by {
        assert(hit(list[i]));
    }
    assert forall|i: int, j: int| 0 <= i < j < list.len() implies (
    #[trigger] list[i]).order_key <= (#[trigger] list[j]).order_key by {
        assert(!less(list[j], list[i]));
    }
    if limit < 0 || list.len() < limit {
        assert forall|row: Place|
            rows.contains(row) && row.user_id == user_id && row.scene
                == "pinned"@ implies #[trigger] list.contains(row) by {
            assert(hit(row));
        }
    }
}

/// What stands at places is each item of a known kind, once for each place, in
/// their order.
pub proof fn law_items_stand_at_places(rows: Seq<Place>, user_id: Seq<char>)
    requires
        forall|i: int| 0 <= i < rows.len() ==> (#[trigger] rows[i]).user_id == user_id,
    ensures
        items_at(rows).len() <= rows.len(),
        forall|k: int|
            0 <= k < items_at(rows).len() ==> exists|i: int|
                k <= i < rows.len() && is_place_of(
                    #[trigger] rows[i],
                    user_id,
                    #[trigger] items_at(rows)[k],
                ),
        forall|i: int|
            0 <= i < rows.len() && ((#[trigger] rows[i]).item_type == "conversation"@
                || rows[i].item_type == "team"@) ==> exists|k: int|
                0 <= k < items_at(rows).len() && is_place_of(
                    rows[i],
                    user_id,
                    #[trigger] items_at(rows)[k],
                ),
    decreases rows.len(),
{
    if rows.len() > 0 {
        let head = rows.drop_last();
        law_items_stand_at_places(head, user_id);
        let last = rows[rows.len() - 1];
        assert(last == rows.last());
        let before = items_at(head);
        let after = items_at(rows);
        assert forall|k: int| 0 <= k < after.len() implies exists|i: int|
            k <= i < rows.len() && is_place_of(#[trigger] rows[i], user_id, #[trigger] after[k]) by {
            if k < before.len() {
                assert(after[k] == before[k]);
                let i = choose|i: int|
                    k <= i < head.len() && is_place_of(#[trigger] head[i], user_id, before[k]);
                assert(rows[i] == head[i]);
            } else {
                assert(is_place_of(rows[rows.len() - 1], user_id, after[k]));
            }
        }
        assert forall|i: int|
            0 <= i < rows.len() && ((#[trigger] rows[i]).item_type == "conversation"@
                || rows[i].item_type == "team"@) implies exists|k: int|
            0 <= k < after.len() && is_place_of(rows[i], user_id, #[trigger] after[k]) by {
            if i < head.len() {
                assert(head[i] == rows[i]);
                let k = choose|k: int|
                    0 <= k < before.len() && is_place_of(head[i], user_id, #[trigger] before[k]);
                assert(after[k] == before[k]);
            } else {
                assert(is_place_of(last, user_id, after[after.len() - 1]));
            }
        }
    }
}

} // verus!
