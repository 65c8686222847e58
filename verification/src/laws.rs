//! The laws of the store, stated over the models that the store contracts
//! use. The round trip of the codec itself is
//! [`crate::codec::lemma_round_trip`].

use vstd::prelude::*;

use crate::codec::spec_load;
use crate::item::{spec_add, spec_remove, spec_update, upd_one, ItemModel};
use crate::render::render_listing;

verus! {

/// Appending to a ledger of K records yields K + 1 records, the new one
/// carrying id K + 1 and the given fields, with the first K unchanged.
pub proof fn lemma_append_monotonic(s: Seq<ItemModel>, v: ItemModel)
    ensures
        spec_add(s, v).len() == s.len() + 1,
        spec_add(s, v)[s.len() as int].id == s.len() + 1,
        spec_add(s, v)[s.len() as int].item == v.item,
        spec_add(s, v)[s.len() as int].money == v.money,
        spec_add(s, v)[s.len() as int].description == v.description,
        spec_add(s, v)[s.len() as int].created_at == v.created_at,
        spec_add(s, v)[s.len() as int].update_at == v.update_at,
        forall|j: int| 0 <= j < s.len() ==> spec_add(s, v)[j] == s[j],
{
}

/// Removing a valid position shrinks the ledger by exactly one record: the
/// records before it keep their places, those after it shift down one.
pub proof fn lemma_remove_shrinks(s: Seq<ItemModel>, id: int)
    requires
        1 <= id <= s.len(),
    ensures
        spec_remove(s, id).len() == s.len() - 1,
        forall|j: int| 0 <= j < id - 1 ==> spec_remove(s, id)[j] == s[j],
        forall|j: int| id - 1 <= j < s.len() - 1 ==> spec_remove(s, id)[j] == s[j + 1],
{
}

/// An update changes label, amount, description and update time of every
/// matching record, leaves its id and creation time untouched, and leaves
/// every non-matching record exactly as it was.
pub proof fn lemma_update_preserves_identity(
    s: Seq<ItemModel>,
    id: int,
    label: Seq<char>,
    money: int,
    desc: Seq<char>,
    now: int,
)
    ensures
        spec_update(s, id, label, money, desc, now).len() == s.len(),
        forall|j: int|
            0 <= j < s.len() && s[j].id == id ==> {
                let u = #[trigger] spec_update(s, id, label, money, desc, now)[j];
                u.id == s[j].id && u.created_at == s[j].created_at && u.item == label && u.money
                    == money && u.description == desc && u.update_at == now
            },
        forall|j: int|
            0 <= j < s.len() && s[j].id != id ==> #[trigger] spec_update(
                s,
                id,
                label,
                money,
                desc,
                now,
            )[j] == s[j],
{
    assert forall|j: int| 0 <= j < s.len() implies #[trigger] spec_update(
        s,
        id,
        label,
        money,
        desc,
        now,
    )[j] == upd_one(s[j], id, label, money, desc, now) by {}
}

/// Listing is a pure function of the file content: two listings of the same
/// content, with no mutation in between, are identical.
pub proof fn lemma_list_idempotent(content: Seq<char>, out1: Seq<char>, out2: Seq<char>)
    requires
        spec_load(content) matches Some(s) && out1 == render_listing(s),
        spec_load(content) matches Some(s) && out2 == render_listing(s),
    ensures
        out1 == out2,
{
}

} // verus!
