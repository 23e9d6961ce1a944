//! Category sidebar columns.
//!
//! Fixed-column layout (inner width 34):
//! marker(2) + bullet(2) + title(14) + count(7, right) + size(9, right).
use vstd::prelude::*;
use crate::fs_util::{human_size, human_size_spec};
use crate::model::{Category, ScanItem, ScanResults, ScanStatus, chosen_items, sum_bytes, sum_item_bytes};
use crate::text::{chars_of, dec, pad_left, pad_left_spec, push_decimal, push_str};

verus! {

pub const TITLE_W: usize = 14;
pub const COUNT_W: usize = 7;
pub const SIZE_W: usize = 9;

/// `sel/total` right-aligned in the count column; the total alone when the
/// pair would overflow the column.
pub open spec fn count_text_spec(selected: nat, total: nat) -> Seq<char> {
    let pair = dec(selected) + "/"@ + dec(total);
    if pair.len() <= 7 {
        pad_left_spec(pair, 7)
    } else {
        pad_left_spec(dec(total), 7)
    }
}

pub fn count_text(selected: usize, total: usize) -> (r: String)
    ensures
        r@ == count_text_spec(selected as nat, total as nat),
{
    let mut pair = String::new();
    push_decimal(&mut pair, selected as u64);
    push_str(&mut pair, "/");
    push_decimal(&mut pair, total as u64);
    proof {
        reveal_strlit("/");
    }
    if chars_of(pair.as_str()).len() <= COUNT_W {
        pad_left(pair.as_str(), COUNT_W)
    } else {
        let mut t = String::new();
        push_decimal(&mut t, total as u64);
        pad_left(t.as_str(), COUNT_W)
    }
}

/// What a category row shows: its bytes, item count and selected count, or
/// that its scan has not started.
#[derive(Debug, Clone, Copy, PartialEq, Eq, Structural)]
pub struct RowStats {
    pub bytes: u64,
    pub total: usize,
    pub selected: usize,
    pub pending: bool,
}

/// While a scan streams, the live counts; before it starts, nothing; after,
/// the stored items.
pub open spec fn row_stats_spec(st: ScanStatus, items: Seq<ScanItem>) -> RowStats {
    match st {
        ScanStatus::Scanning { found, bytes } => RowStats { bytes, total: found, selected: 0, pending: false },
        ScanStatus::Pending => RowStats { bytes: 0, total: 0, selected: 0, pending: true },
        _ => RowStats {
            bytes: sum_bytes(items) as u64,
            total: items.len() as usize,
            selected: chosen_items(items).len() as usize,
            pending: false,
        },
    }
}

pub fn row_stats(results: &ScanResults, cat: Category) -> (r: RowStats)
    requires
        results.wf(),
        sum_bytes(results.cat_items(cat)) <= u64::MAX,
    ensures
        r == row_stats_spec(results.cat_status(cat), results.cat_items(cat)),
{
    let st = &results.status[cat.index()];
    match st {
        ScanStatus::Scanning { found, bytes } => RowStats {
            bytes: *bytes,
            total: *found,
            selected: 0,
            pending: false,
        },
        ScanStatus::Pending => RowStats { bytes: 0, total: 0, selected: 0, pending: true },
        _ => {
            let items = results.items_for(cat);
            let mut sel: usize = 0;
            for j in 0..items.len()
                invariant
                    sel == chosen_items(items@.take(j as int)).len(),
                    sel <= j,
            {
                assert(items@.take(j + 1).drop_last() == items@.take(j as int));
                if items[j].selected && items[j].selectable() {
                    sel = sel + 1;
                }
            }
            assert(items@.take(items@.len() as int) == items@);
            RowStats { bytes: sum_item_bytes(items), total: items.len(), selected: sel, pending: false }
        },
    }
}

/// The count column of a category row: a dash when the category turned out
/// empty.
pub open spec fn count_column_spec(s: RowStats) -> Seq<char> {
    if !s.pending && s.total == 0 {
        pad_left_spec("\u{2013}"@, 7)
    } else {
        count_text_spec(s.selected as nat, s.total as nat)
    }
}

pub fn count_column(s: RowStats) -> (r: String)
    ensures
        r@ == count_column_spec(s),
{
    if !s.pending && s.total == 0 {
        pad_left("\u{2013}", COUNT_W)
    } else {
        count_text(s.selected, s.total)
    }
}

/// The size column of a category row: an ellipsis before the scan starts, a
/// dash when empty, else the size.
pub open spec fn size_column_spec(s: RowStats) -> Seq<char> {
    if s.pending {
        pad_left_spec("\u{2026}"@, 9)
    } else if s.total == 0 {
        pad_left_spec("\u{2013}"@, 9)
    } else {
        pad_left_spec(human_size_spec(s.bytes as nat), 9)
    }
}

pub fn size_column(s: RowStats) -> (r: String)
    ensures
        r@ == size_column_spec(s),
{
    if s.pending {
        pad_left("\u{2026}", SIZE_W)
    } else if s.total == 0 {
        pad_left("\u{2013}", SIZE_W)
    } else {
        let h = human_size(s.bytes);
        pad_left(h.as_str(), SIZE_W)
    }
}

} // verus!
