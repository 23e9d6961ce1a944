//! Trash scanner decisions: the whole-Trash entry and one entry per trashed
//! item.
use vstd::prelude::*;
use crate::model::{Category, ItemAction, SafetyTier, ScanItem, item_is};
use crate::paths::{file_name, file_name_of};
use crate::text::{chars_of, owned, string_from};

verus! {

/// The entry that empties the whole Trash; `None` when the Trash is empty.
pub fn empty_trash_item(trash: String, bytes: u64) -> (r: Option<ScanItem>)
    ensures
        bytes == 0 ==> r is None,
        bytes > 0 ==> (r matches Some(i) && item_is(i, trash@, "Empty entire Trash"@, bytes, SafetyTier::Safe,
            Category::Trash, "permanently delete everything in Trash"@, 0, ItemAction::EmptyTrash)),
{
    if bytes == 0 {
        return None;
    }
    Some(
        ScanItem::new(trash, owned("Empty entire Trash"), bytes, SafetyTier::Safe, Category::Trash).with_note(
            "permanently delete everything in Trash",
        ).with_action(ItemAction::EmptyTrash),
    )
}

/// The name a trashed entry is shown by: its file name, or `trashed item`.
pub open spec fn trash_name_spec(path: Seq<char>) -> Seq<char> {
    match file_name_of(path) {
        Some(n) => n,
        None => "trashed item"@,
    }
}

pub fn trash_entry_name(path: &str) -> (r: String)
    ensures
        r@ == trash_name_spec(path@),
{
    match file_name(&chars_of(path)) {
        Some(n) => string_from(&n),
        None => owned("trashed item"),
    }
}

/// The entry for one item in the Trash; `None` when it occupies nothing.
pub fn trashed_item(path: String, label: String, bytes: u64) -> (r: Option<ScanItem>)
    ensures
        bytes == 0 ==> r is None,
        bytes > 0 ==> (r matches Some(i) && item_is(i, path@, label@, bytes, SafetyTier::Safe, Category::Trash,
            "permanent delete \u{2014} already in Trash"@, 0, ItemAction::Delete)),
{
    if bytes == 0 {
        return None;
    }
    Some(
        ScanItem::new(path, label, bytes, SafetyTier::Safe, Category::Trash).with_note(
            "permanent delete \u{2014} already in Trash",
        ).with_action(ItemAction::Delete),
    )
}

} // verus!
