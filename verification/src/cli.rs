//! The command surface: one closed variant per operation, and the dispatch
//! from a parsed command and the current file content to one store call.

use vstd::prelude::*;

use crate::codec::{ser_items, spec_load};
use crate::item::{
    add_item, detail_item, first_match, list_items, remove_item, spec_add, spec_remove,
    spec_update, update_item, Item, ItemModel, StoreError,
};
use crate::render::{render_detail, render_listing};

verus! {

/// One ledger operation, as parsed from the command line.
#[derive(Debug, Clone, PartialEq, Eq)]
pub enum Action {
    Add { item: String, money: usize, desciption: String },
    Remove { id: usize },
    Update { id: usize, item: String, money: usize, desciption: String },
    List,
    Detail { id: usize },
}

/// The parsed command line: the operation and the ledger file to run it on.
#[derive(Debug, Clone, PartialEq, Eq)]
pub struct CommandLineArgs {
    pub action: Action,
    pub asset_file: Option<String>,
}

/// What one dispatched operation produced: rewritten file content to be
/// persisted, and a report to be printed.
#[derive(Debug)]
pub struct Outcome {
    pub new_content: Option<String>,
    pub report: Option<String>,
}

/// Run one action against the ledger held in `content`: exactly one store
/// call, no further business logic.
pub fn run_action(action: Action, content: &str) -> (r: Result<Outcome, StoreError>)
    ensures
        action matches Action::Add { item, money, desciption } ==> ((r is Ok <==> spec_load(
            content@,
        ) is Some) && (r matches Ok(o) ==> (o.new_content matches Some(out) && (exists|now: int|
            0 <= now <= u64::MAX && out@ == ser_items(
                spec_add(
                    spec_load(content@)->Some_0,
                    ItemModel {
                        id: 0,
                        item: item@,
                        money: money as int,
                        description: desciption@,
                        created_at: now,
                        update_at: now,
                    },
                ),
            )) && o.report is None)) && (r matches Err(e) ==> e == StoreError::Parse)),
        action matches Action::Remove { id } ==> ((r is Ok <==> (spec_load(content@) matches Some(
            s,
        ) && 1 <= id <= s.len())) && (r matches Ok(o) ==> (o.new_content matches Some(out) && out@
            == ser_items(spec_remove(spec_load(content@)->Some_0, id as int)) && o.report
            is None)) && (r matches Err(e) ==> ((spec_load(content@) matches Some(s) && (id == 0
            || id > s.len()) && e == StoreError::InvalidId) || (spec_load(content@) is None && e
            == StoreError::Parse)))),
        action matches Action::Update { id, item, money, desciption } ==> ((r is Ok <==> spec_load(
            content@,
        ) is Some) && (r matches Ok(o) ==> (o.new_content matches Some(out) && (exists|now: int|
            0 <= now <= u64::MAX && out@ == ser_items(
                spec_update(
                    spec_load(content@)->Some_0,
                    id as int,
                    item@,
                    money as int,
                    desciption@,
                    now,
                ),
            )) && o.report is None)) && (r matches Err(e) ==> e == StoreError::Parse)),
        action matches Action::List ==> ((r is Ok <==> spec_load(content@) is Some) && (r matches
            Ok(o) ==> (o.report matches Some(rep) && rep@ == render_listing(
            spec_load(content@)->Some_0,
        ) && o.new_content is None)) && (r matches Err(e) ==> e == StoreError::Parse)),
        action matches Action::Detail { id } ==> ((r is Ok <==> (spec_load(content@) matches Some(
            s,
        ) && first_match(s, id as int) is Some)) && (r matches Ok(o) ==> (o.report matches Some(
            rep,
        ) && rep@ == render_detail(first_match(spec_load(content@)->Some_0, id as int)->Some_0)
            && o.new_content is None)) && (r matches Err(e) ==> ((spec_load(content@) matches Some(
            s,
        ) && first_match(s, id as int) is None && e == StoreError::NotFound) || (spec_load(
            content@,
        ) is None && e == StoreError::Parse)))),
{
    match action {
        Action::Add { item, money, desciption } => {
            let nitem = Item::new(item, money, desciption);
            let ghost nv = nitem@;
            match add_item(content, nitem) {
                Ok(out) => {
                    proof {
                        let now = nv.created_at;
                        assert(nv =~= ItemModel {
                            id: 0,
                            item: nv.item,
                            money: nv.money,
                            description: nv.description,
                            created_at: now,
                            update_at: now,
                        });
                    }
                    Ok(Outcome { new_content: Some(out), report: None })
                },
                Err(e) => Err(e),
            }
        },
        Action::Remove { id } => {
            match remove_item(content, id) {
                Ok(out) => Ok(Outcome { new_content: Some(out), report: None }),
                Err(e) => Err(e),
            }
        },
        Action::Update { id, item, money, desciption } => {
            match update_item(content, id, item, money, desciption) {
                Ok(out) => Ok(Outcome { new_content: Some(out), report: None }),
                Err(e) => Err(e),
            }
        },
        Action::List => {
            match list_items(content) {
                Ok(rep) => Ok(Outcome { new_content: None, report: Some(rep) }),
                Err(e) => Err(e),
            }
        },
        Action::Detail { id } => {
            match detail_item(content, id) {
                Ok(rep) => Ok(Outcome { new_content: None, report: Some(rep) }),
                Err(e) => Err(e),
            }
        },
    }
}

} // verus!
