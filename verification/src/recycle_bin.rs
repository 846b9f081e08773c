//! What the recycle bin window asks for when its buttons are pressed.
use vstd::prelude::*;

use crate::foundation::FileId;
use crate::listing::{items_model, Item, ItemModel};

verus! {

/// A request of the recycle bin window.
#[derive(Debug, PartialEq)]
pub enum BinAction {
    Nothing,
    /// Put these files back where they came from.
    Restore(Vec<FileId>),
    /// Delete these files for good.
    EmptyTrash(Vec<FileId>),
}

/// The ids of the chosen entries, in the order they were chosen; positions past
/// the list are skipped.
pub open spec fn selected_ids(items: Seq<ItemModel>, selected: Seq<usize>) -> Seq<FileId>
    decreases selected.len(),
{
    if selected.len() == 0 {
        Seq::empty()
    } else {
        let r = selected_ids(items, selected.drop_last());
        if selected.last() < items.len() {
            r.push(items[selected.last() as int].0)
        } else {
            r
        }
    }
}

pub(crate) fn selected_ids_of(items: &Vec<Item>, selected: &Vec<usize>) -> (r: Vec<FileId>)
    ensures
        r@ == selected_ids(items_model(items@), selected@),
{
    let mut r: Vec<FileId> = Vec::new();
    let mut i: usize = 0;
    while i < selected.len()
        invariant
            i <= selected.len(),
            r@ == selected_ids(items_model(items@), selected@.take(i as int)),
        decreases selected.len() - i,
    {
        proof {
            assert(selected@.take(i + 1).drop_last() =~= selected@.take(i as int));
        }
        let k = selected[i];
        if k < items.len() {
            r.push(items[k].0);
        }
        i = i + 1;
    }
    proof {
        assert(selected@.take(selected.len() as int) =~= selected@);
    }
    r
}

/// The request for this frame: "Restore" or "Delete" act on the chosen entries
/// (when some are chosen), "Empty Recycle Bin" on every entry.
pub fn bin_action(
    items: &Vec<Item>,
    selected: &Vec<usize>,
    restore_clicked: bool,
    delete_clicked: bool,
    empty_clicked: bool,
) -> (r: BinAction)
    ensures
        restore_clicked && selected@.len() > 0 ==> (r matches BinAction::Restore(ids) && ids@ == selected_ids(
            items_model(items@),
            selected@,
        )),
        !(restore_clicked && selected@.len() > 0) && delete_clicked && selected@.len() > 0 ==> (r matches BinAction::EmptyTrash(
            ids,
        ) && ids@ == selected_ids(items_model(items@), selected@)),
        !(restore_clicked && selected@.len() > 0) && !(delete_clicked && selected@.len() > 0) && empty_clicked
            ==> (r matches BinAction::EmptyTrash(ids) && ids@ == items_model(items@).map_values(|it: ItemModel| it.0)),
        !(restore_clicked && selected@.len() > 0) && !(delete_clicked && selected@.len() > 0) && !empty_clicked
            ==> r == BinAction::Nothing,
{
    if restore_clicked && selected.len() > 0 {
        BinAction::Restore(selected_ids_of(items, selected))
    } else if delete_clicked && selected.len() > 0 {
        BinAction::EmptyTrash(selected_ids_of(items, selected))
    } else if empty_clicked {
        let mut ids: Vec<FileId> = Vec::new();
        let mut i: usize = 0;
        while i < items.len()
            invariant
                i <= items.len(),
                ids@ == items_model(items@).map_values(|it: ItemModel| it.0).take(i as int),
            decreases items.len() - i,
        {
            ids.push(items[i].0);
            i = i + 1;
            proof {
                assert(ids@ =~= items_model(items@).map_values(|it: ItemModel| it.0).take(i as int));
            }
        }
        proof {
            assert(items_model(items@).map_values(|it: ItemModel| it.0).take(items.len() as int)
                =~= items_model(items@).map_values(|it: ItemModel| it.0));
        }
        BinAction::EmptyTrash(ids)
    } else {
        BinAction::Nothing
    }
}

} // verus!
