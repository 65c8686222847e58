//! The record type of the ledger, its mathematical view, and the store
//! operations: each one a pure function from file content to file content
//! or to a rendered report.

use vstd::prelude::*;

use crate::codec::{from_json, ser_items, spec_load, to_json};
use crate::render::{render_detail, render_listing};

verus! {

/// One ledger entry. Timestamps are Unix epoch seconds.
#[derive(Debug, Clone, PartialEq, Eq)]
pub struct Item {
    pub id: usize,
    pub item: String,
    pub money: usize,
    pub description: String,
    pub created_at: u64,
    pub update_at: u64,
}

/// The mathematical view of an [`Item`]: unbounded integers and character
/// sequences in place of machine integers and heap strings.
#[verifier::ext_equal]
pub struct ItemModel {
    pub id: int,
    pub item: Seq<char>,
    pub money: int,
    pub description: Seq<char>,
    pub created_at: int,
    pub update_at: int,
}

impl View for Item {
    type V = ItemModel;

    open spec fn view(&self) -> ItemModel {
        ItemModel {
            id: self.id as int,
            item: self.item@,
            money: self.money as int,
            description: self.description@,
            created_at: self.created_at as int,
            update_at: self.update_at as int,
        }
    }
}

/// The views of a sequence of records.
pub open spec fn views(s: Seq<Item>) -> Seq<ItemModel> {
    s.map_values(|it: Item| it@)
}

/// Relies on chrono's `Utc::now` and `DateTime::timestamp`: the clock, read
/// as Unix epoch seconds. Nothing is promised of the value.
#[verifier::external_body]
fn now_epoch() -> u64 {
    chrono::Utc::now().timestamp() as u64
}

impl Item {
    /// A record as [`Item::new`] builds it, at a given clock reading.
    pub fn new_at(item: String, money: usize, description: String, now: u64) -> (r: Item)
        ensures
            r.id == 0,
            r.item@ == item@,
            r.money == money,
            r.description@ == description@,
            r.created_at == now,
            r.update_at == now,
    {
        Item { id: 0, item, money, description, created_at: now, update_at: now }
    }

    /// A fresh record: id 0 until appended, both timestamps read from the
    /// clock once, so creation and update time start out equal.
    pub fn new(item: String, money: usize, description: String) -> (r: Item)
        ensures
            r.id == 0,
            r.item@ == item@,
            r.money == money,
            r.description@ == description@,
            r.created_at == r.update_at,
    {
        let now = now_epoch();
        Item::new_at(item, money, description, now)
    }
}

/// What a store operation can report.
#[derive(Clone, Copy, Debug, PartialEq, Eq, Structural)]
pub enum StoreError {
    /// A removal id of zero or past the end of the ledger.
    InvalidId,
    /// No record carries the requested id.
    NotFound,
    /// The file content is neither empty nor a canonical document.
    Parse,
}

impl StoreError {
    /// The human-readable message of this error.
    pub fn message(&self) -> (r: String)
        ensures
            *self == StoreError::InvalidId ==> r@ == "Invalid Item ID"@,
            *self == StoreError::NotFound ==> r@ == "Item not found"@,
            *self == StoreError::Parse ==> r@ == "could not parse the asset file"@,
    {
        match self {
            StoreError::InvalidId => String::from_str("Invalid Item ID"),
            StoreError::NotFound => String::from_str("Item not found"),
            StoreError::Parse => String::from_str("could not parse the asset file"),
        }
    }
}

// ---------------------------------------------------------------------------
// The store operations, as functions over the models
// ---------------------------------------------------------------------------

/// Appending gives the new record the next position as its id.
pub open spec fn spec_add(s: Seq<ItemModel>, v: ItemModel) -> Seq<ItemModel> {
    s.push(
        ItemModel {
            id: s.len() as int + 1,
            item: v.item,
            money: v.money,
            description: v.description,
            created_at: v.created_at,
            update_at: v.update_at,
        },
    )
}

/// Removal deletes the record at position `id - 1`.
pub open spec fn spec_remove(s: Seq<ItemModel>, id: int) -> Seq<ItemModel> {
    s.remove(id - 1)
}

/// How one record changes under an update aimed at `id`.
pub open spec fn upd_one(
    v: ItemModel,
    id: int,
    label: Seq<char>,
    money: int,
    desc: Seq<char>,
    now: int,
) -> ItemModel {
    if v.id == id {
        ItemModel {
            id: id,
            item: label,
            money: money,
            description: desc,
            created_at: v.created_at,
            update_at: now,
        }
    } else {
        v
    }
}

/// An update rewrites every matching record and passes the rest through.
pub open spec fn spec_update(
    s: Seq<ItemModel>,
    id: int,
    label: Seq<char>,
    money: int,
    desc: Seq<char>,
    now: int,
) -> Seq<ItemModel> {
    s.map_values(|v: ItemModel| upd_one(v, id, label, money, desc, now))
}

/// The first record whose id field equals `id`, if any.
pub open spec fn first_match(s: Seq<ItemModel>, id: int) -> Option<ItemModel>
    decreases s.len(),
{
    if s.len() == 0 {
        None
    } else if s[0].id == id {
        Some(s[0])
    } else {
        first_match(s.drop_first(), id)
    }
}

// ---------------------------------------------------------------------------
// Executable store operations, over file content
// ---------------------------------------------------------------------------

/// The records held in the given file content.
pub fn collect_items(content: &str) -> (r: Result<Vec<Item>, StoreError>)
    ensures
        r is Ok <==> spec_load(content@) is Some,
        r matches Ok(v) ==> spec_load(content@) == Some(views(v@)) && v@.len() < usize::MAX,
        r matches Err(e) ==> e == StoreError::Parse,
{
    match from_json(content) {
        Some(v) => Ok(v),
        None => Err(StoreError::Parse),
    }
}

/// Append `item` to the ledger held in `content`, assigning it the next id,
/// and return the rewritten content.
pub fn add_item(content: &str, item: Item) -> (r: Result<String, StoreError>)
    ensures
        r is Ok <==> spec_load(content@) is Some,
        r matches Ok(out) ==> out@ == ser_items(
            spec_add(spec_load(content@)->Some_0, item@),
        ),
        r matches Err(e) ==> e == StoreError::Parse,
{
    let mut items = match collect_items(content) {
        Ok(v) => v,
        Err(e) => {
            return Err(e);
        },
    };
    let ghost s0 = views(items@);
    let new_id = items.len() + 1;
    let mut it = item;
    it.id = new_id;
    items.push(it);
    proof {
        assert(views(items@) =~= spec_add(s0, item@));
    }
    Ok(to_json(&items))
}

/// Remove the record at position `id`, failing on an id of zero or past the
/// end, and return the rewritten content.
pub fn remove_item(content: &str, id: usize) -> (r: Result<String, StoreError>)
    ensures
        r is Ok <==> (spec_load(content@) matches Some(s) && 1 <= id <= s.len()),
        r matches Ok(out) ==> out@ == ser_items(
            spec_remove(spec_load(content@)->Some_0, id as int),
        ),
        r matches Err(e) ==> ((spec_load(content@) matches Some(s) && (id == 0 || id > s.len())
            && e == StoreError::InvalidId) || (spec_load(content@) is None && e
            == StoreError::Parse)),
{
    let mut items = match collect_items(content) {
        Ok(v) => v,
        Err(e) => {
            return Err(e);
        },
    };
    let ghost s0 = views(items@);
    if id == 0 || id > items.len() {
        return Err(StoreError::InvalidId);
    }
    items.remove(id - 1);
    proof {
        assert(views(items@) =~= spec_remove(s0, id as int));
    }
    Ok(to_json(&items))
}

/// Update every record whose id field equals `id` with the new fields and
/// the given clock reading, keeping its id and creation time; ids that match
/// nothing leave the ledger unchanged. Returns the rewritten content.
pub fn update_item_at(
    content: &str,
    id: usize,
    update_item: String,
    update_money: usize,
    update_desciption: String,
    now: u64,
) -> (r: Result<String, StoreError>)
    ensures
        r is Ok <==> spec_load(content@) is Some,
        r matches Ok(out) ==> out@ == ser_items(
            spec_update(
                spec_load(content@)->Some_0,
                id as int,
                update_item@,
                update_money as int,
                update_desciption@,
                now as int,
            ),
        ),
        r matches Err(e) ==> e == StoreError::Parse,
{
    let items = match collect_items(content) {
        Ok(v) => v,
        Err(e) => {
            return Err(e);
        },
    };
    let ghost s0 = views(items@);
    let ghost target = spec_update(
        s0,
        id as int,
        update_item@,
        update_money as int,
        update_desciption@,
        now as int,
    );
    let mut updated: Vec<Item> = Vec::new();
    let mut i: usize = 0;
    while i < items.len()
        invariant
            i <= items@.len(),
            s0 == views(items@),
            target == spec_update(
                s0,
                id as int,
                update_item@,
                update_money as int,
                update_desciption@,
                now as int,
            ),
            updated@.len() == i,
            forall|k: int| 0 <= k < i ==> #[trigger] updated@[k]@ == target[k],
        decreases items@.len() - i,
    {
        let x = &items[i];
        if x.id == id {
            updated.push(
                Item {
                    id: id,
                    item: update_item.clone(),
                    money: update_money,
                    description: update_desciption.clone(),
                    created_at: x.created_at,
                    update_at: now,
                },
            );
        } else {
            updated.push(
                Item {
                    id: x.id,
                    item: x.item.clone(),
                    money: x.money,
                    description: x.description.clone(),
                    created_at: x.created_at,
                    update_at: x.update_at,
                },
            );
        }
        proof {
            assert(s0[i as int] == items@[i as int]@);
            assert(target[i as int] == upd_one(
                s0[i as int],
                id as int,
                update_item@,
                update_money as int,
                update_desciption@,
                now as int,
            ));
        }
        i = i + 1;
    }
    proof {
        assert(views(updated@) =~= target);
    }
    Ok(to_json(&updated))
}

/// As [`update_item_at`], with the clock read now.
pub fn update_item(
    content: &str,
    id: usize,
    item: String,
    update_money: usize,
    update_desciption: String,
) -> (r: Result<String, StoreError>)
    ensures
        r is Ok <==> spec_load(content@) is Some,
        r matches Ok(out) ==> exists|now: int|
            0 <= now <= u64::MAX && out@ == ser_items(
                spec_update(
                    spec_load(content@)->Some_0,
                    id as int,
                    item@,
                    update_money as int,
                    update_desciption@,
                    now,
                ),
            ),
        r matches Err(e) ==> e == StoreError::Parse,
{
    let now = now_epoch();
    let r = update_item_at(content, id, item, update_money, update_desciption, now);
    proof {
        if r is Ok {
            let witness = now as int;
            assert(0 <= witness <= u64::MAX);
        }
    }
    r
}

/// The tabular listing of the ledger held in `content`.
pub fn list_items(content: &str) -> (r: Result<String, StoreError>)
    ensures
        r is Ok <==> spec_load(content@) is Some,
        r matches Ok(out) ==> out@ == render_listing(spec_load(content@)->Some_0),
        r matches Err(e) ==> e == StoreError::Parse,
{
    let items = match collect_items(content) {
        Ok(v) => v,
        Err(e) => {
            return Err(e);
        },
    };
    Ok(crate::render::render_listing_exec(&items))
}

/// The full fields of the first record whose id field equals `id`.
pub fn detail_item(content: &str, id: usize) -> (r: Result<String, StoreError>)
    ensures
        r is Ok <==> (spec_load(content@) matches Some(s) && first_match(s, id as int) is Some),
        r matches Ok(out) ==> out@ == render_detail(
            first_match(spec_load(content@)->Some_0, id as int)->Some_0,
        ),
        r matches Err(e) ==> ((spec_load(content@) matches Some(s) && first_match(s, id as int)
            is None && e == StoreError::NotFound) || (spec_load(content@) is None && e
            == StoreError::Parse)),
{
    let items = match collect_items(content) {
        Ok(v) => v,
        Err(e) => {
            return Err(e);
        },
    };
    let ghost s0 = views(items@);
    let mut i: usize = 0;
    proof {
        assert(s0.skip(0) =~= s0);
    }
    while i < items.len()
        invariant
            i <= items@.len(),
            s0 == views(items@),
            spec_load(content@) == Some(s0),
            first_match(s0, id as int) == first_match(s0.skip(i as int), id as int),
        decreases items@.len() - i,
    {
        proof {
            assert(s0.skip(i as int)[0] == s0[i as int]);
            assert(s0[i as int] == items@[i as int]@);
        }
        if items[i].id == id {
            proof {
                assert(s0.skip(i as int).len() > 0);
                assert(first_match(s0.skip(i as int), id as int) == Some(s0[i as int]));
            }
            return Ok(crate::render::render_detail_exec(&items[i]));
        }
        proof {
            assert(s0.skip(i as int).drop_first() =~= s0.skip(i as int + 1));
        }
        i = i + 1;
    }
    proof {
        assert(s0.skip(i as int).len() == 0);
    }
    Err(StoreError::NotFound)
}

} // verus!
