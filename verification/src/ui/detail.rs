//! Detail table: how many rows fit, the size bar, and the texts around the
//! item list of one category. The table itself is drawn by the application.
use vstd::prelude::*;
use crate::fs_util::{human_size, human_size_spec};
use crate::model::{
    Category, ScanItem, ScanStatus, cat_title, chosen, chosen_items, selectable_item, sum_bytes, sum_item_bytes,
    lemma_chosen_sum_le,
};
use crate::text::{dec, push_char, push_decimal, push_str};
use crate::ui::footer::{outer_height, outer_height_spec};

verus! {

/// Width of the size bar, in cells.
pub const BAR_WIDTH: usize = 12;

/// The height of the middle chunk when ratatui's `Layout::split` divides a
/// `width`×`height` area vertically into `Length(top)`, `Min(min_middle)` and
/// `Length(bottom)`.
pub uninterp spec fn split_middle_height(width: u16, height: u16, top: u16, min_middle: u16, bottom: u16) -> u16;

/// Splits an area at the origin with `ratatui::layout::Layout::split` (vertical:
/// `Length(top)`, `Min(min_middle)`, `Length(bottom)`) and returns the height of
/// the middle chunk. The contract names the result: the constraint solver
/// decides it from these arguments alone. It states one fact of it: when the
/// height holds both lengths and the minimum, the lengths are kept and the
/// middle gets the rest (a length constraint outweighs the minimum's wish to
/// stay at its minimum, and the default flex leaves no gaps). What the solver
/// gives a smaller area is not stated.
#[verifier::external_body]
fn middle_height(width: u16, height: u16, top: u16, min_middle: u16, bottom: u16) -> (r: u16)
    ensures
        r == split_middle_height(width, height, top, min_middle, bottom),
        height >= top + min_middle + bottom ==> r == height - top - bottom,
{
    let area = ratatui::layout::Rect { x: 0, y: 0, width, height };
    let chunks = ratatui::layout::Layout::vertical([
        ratatui::layout::Constraint::Length(top),
        ratatui::layout::Constraint::Min(min_middle),
        ratatui::layout::Constraint::Length(bottom),
    ]).split(area);
    chunks[1].height
}

/// Layout metrics derived from the actual draw area.
pub struct DetailMetrics {
    pub visible_data_rows: usize,
}

/// `a - b`, or zero when `b` is larger.
pub open spec fn sat_sub(a: int, b: int) -> int {
    if a >= b {
        a - b
    } else {
        0
    }
}

/// Data rows below the summary strip and the table header of a panel of
/// `panel_height` rows (borders take one row each): never fewer than one.
pub open spec fn rows_spec(panel_height: int) -> int {
    let r = sat_sub(sat_sub(panel_height, 2), 2);
    if r < 1 {
        1
    } else {
        r
    }
}

/// Number of data rows shown below the summary strip and the table header.
pub fn visible_data_rows(panel_height: u16) -> (r: usize)
    ensures
        r == rows_spec(panel_height as int),
        r >= 1,
{
    let inner = if panel_height >= 2 {
        panel_height - 2
    } else {
        0
    };
    let rows = if inner >= 2 {
        inner - 2
    } else {
        0
    };
    if rows < 1 {
        1
    } else {
        rows as usize
    }
}

/// Metrics of a detail panel of the given height.
pub fn metrics(panel_height: u16) -> (r: DetailMetrics)
    ensures
        r.visible_data_rows == rows_spec(panel_height as int),
{
    DetailMetrics { visible_data_rows: visible_data_rows(panel_height) }
}

/// Height of the detail panel: the body row between the three-row header and
/// the footer.
pub open spec fn panel_height_spec(terminal_width: u16, terminal_height: u16) -> u16 {
    split_middle_height(terminal_width, terminal_height, 3, 10, outer_height_spec(terminal_width))
}

/// Number of data rows the detail table shows in a terminal of this size.
pub fn visible_data_rows_for_terminal(terminal_width: u16, terminal_height: u16) -> (r: usize)
    ensures
        r == rows_spec(panel_height_spec(terminal_width, terminal_height) as int),
        r >= 1,
        terminal_height >= 13 + outer_height_spec(terminal_width) ==> r == rows_spec(
            terminal_height - 3 - outer_height_spec(terminal_width),
        ),
{
    let footer_h = outer_height(terminal_width);
    let h = middle_height(terminal_width, terminal_height, 3, 10, footer_h);
    visible_data_rows(h)
}

/// Cells of the size bar that are filled for an item of `bytes` when the
/// largest item has `max_bytes`: `12 × bytes / max_bytes` rounded half away
/// from zero, kept between 1 and 12. With no largest size, an empty item gets
/// one cell and any other item all twelve.
pub open spec fn bar_cells(bytes: nat, max_bytes: nat) -> nat {
    if max_bytes == 0 {
        if bytes == 0 {
            1
        } else {
            12
        }
    } else {
        let q = (24 * bytes + max_bytes) / (2 * max_bytes);
        if q < 1 {
            1
        } else if q > 12 {
            12
        } else {
            q
        }
    }
}

/// A bar of `filled` full cells followed by empty cells, twelve in all.
pub open spec fn bar_text(filled: nat) -> Seq<char> {
    Seq::new(filled, |i: int| '\u{25ae}') + Seq::new((12 - filled) as nat, |i: int| '\u{25af}')
}

/// Horizontal bar showing this item's size relative to the category's largest item.
pub fn size_bar(bytes: u64, max_bytes: u64) -> (r: String)
    ensures
        r@ == bar_text(bar_cells(bytes as nat, max_bytes as nat)),
        r@.len() == 12,
{
    let filled: usize = if max_bytes == 0 {
        if bytes == 0 {
            1
        } else {
            12
        }
    } else {
        let n = (bytes as u128) * 24 + (max_bytes as u128);
        let d = (max_bytes as u128) * 2;
        let q = n / d;
        if q < 1 {
            1
        } else if q > 12 {
            12
        } else {
            q as usize
        }
    };
    let ghost f = filled as nat;
    let mut s = String::new();
    for i in 0..filled
        invariant
            filled <= 12,
            s@ == Seq::new(i as nat, |k: int| '\u{25ae}'),
    {
        push_char(&mut s, '\u{25ae}');
        assert(s@ =~= Seq::new((i + 1) as nat, |k: int| '\u{25ae}'));
    }
    let ghost head = s@;
    for i in 0..(BAR_WIDTH - filled)
        invariant
            filled <= 12,
            head == Seq::new(f, |k: int| '\u{25ae}'),
            s@ == head + Seq::new(i as nat, |k: int| '\u{25af}'),
    {
        push_char(&mut s, '\u{25af}');
        assert(s@ =~= head + Seq::new((i + 1) as nat, |k: int| '\u{25af}'));
    }
    s
}

/// `1 item` or `n items`.
pub open spec fn count_label_spec(n: nat) -> Seq<char> {
    if n == 1 {
        "1 item"@
    } else {
        dec(n) + " items"@
    }
}

pub fn count_label(n: usize) -> (r: String)
    ensures
        r@ == count_label_spec(n as nat),
{
    let mut s = String::new();
    if n == 1 {
        push_str(&mut s, "1 item");
    } else {
        push_decimal(&mut s, n as u64);
        push_str(&mut s, " items");
    }
    s
}

/// How long ago an item was last used: `new`, days below 60, whole months
/// (of 30 days) below a year, else whole years.
pub open spec fn age_label_spec(days: nat) -> Seq<char> {
    if days == 0 {
        "new"@
    } else if days <= 59 {
        dec(days) + "d"@
    } else if days <= 364 {
        dec(days / 30) + "mo"@
    } else {
        dec(days / 365) + "y"@
    }
}

pub fn age_label(days: u32) -> (r: String)
    ensures
        r@ == age_label_spec(days as nat),
{
    let mut s = String::new();
    if days == 0 {
        push_str(&mut s, "new");
    } else if days <= 59 {
        push_decimal(&mut s, days as u64);
        push_str(&mut s, "d");
    } else if days <= 364 {
        push_decimal(&mut s, (days / 30) as u64);
        push_str(&mut s, "mo");
    } else {
        push_decimal(&mut s, (days / 365) as u64);
        push_str(&mut s, "y");
    }
    s
}

/// The panel title: the category alone when it is empty, else its item count
/// and total size.
pub open spec fn detail_title_spec(c: Category, items: Seq<ScanItem>) -> Seq<char> {
    if items.len() == 0 {
        " "@ + cat_title(c) + " "@
    } else {
        " "@ + cat_title(c) + " \u{2014} "@ + count_label_spec(items.len()) + " \u{b7} "@
            + human_size_spec(sum_bytes(items)) + " "@
    }
}

pub fn detail_title(c: Category, items: &Vec<ScanItem>) -> (r: String)
    requires
        sum_bytes(items@) <= u64::MAX,
    ensures
        r@ == detail_title_spec(c, items@),
{
    let mut s = String::new();
    push_str(&mut s, " ");
    push_str(&mut s, c.title());
    if items.len() == 0 {
        push_str(&mut s, " ");
        return s;
    }
    push_str(&mut s, " \u{2014} ");
    let n = count_label(items.len());
    push_str(&mut s, n.as_str());
    push_str(&mut s, " \u{b7} ");
    let h = human_size(sum_item_bytes(items));
    push_str(&mut s, h.as_str());
    push_str(&mut s, " ");
    s
}

/// Left side of the strip above the table: how many items are selected and
/// their size, or a hint when nothing is.
pub open spec fn selection_summary_spec(items: Seq<ScanItem>) -> Seq<char> {
    let sel = chosen_items(items);
    if sel.len() > 0 {
        dec(sel.len()) + " of "@ + dec(items.len()) + " selected \u{b7} "@ + human_size_spec(sum_bytes(sel))
    } else {
        "Nothing selected \u{2014} Space toggles, a selects all"@
    }
}

pub fn selection_summary(items: &Vec<ScanItem>) -> (r: String)
    requires
        sum_bytes(items@) <= u64::MAX,
    ensures
        r@ == selection_summary_spec(items@),
{
    let mut sel: Vec<ScanItem> = Vec::new();
    for j in 0..items.len()
        invariant
            sel@ == chosen_items(items@.take(j as int)),
    {
        assert(items@.take(j + 1).drop_last() == items@.take(j as int));
        if items[j].selected && items[j].selectable() {
            sel.push(items[j].clone());
        }
    }
    assert(items@.take(items@.len() as int) == items@);
    proof {
        lemma_chosen_sum_le(items@);
    }
    let mut s = String::new();
    if sel.len() > 0 {
        push_decimal(&mut s, sel.len() as u64);
        push_str(&mut s, " of ");
        push_decimal(&mut s, items.len() as u64);
        push_str(&mut s, " selected \u{b7} ");
        let h = human_size(sum_item_bytes(&sel));
        push_str(&mut s, h.as_str());
    } else {
        push_str(&mut s, "Nothing selected \u{2014} Space toggles, a selects all");
    }
    s
}

/// Right side of the strip: the cursor's position (1-based, at most the
/// count) out of the item count.
pub open spec fn cursor_position_spec(row: nat, len: nat) -> Seq<char> {
    let p = if row + 1 < len {
        row + 1
    } else {
        len
    };
    dec(p) + "/"@ + dec(len)
}

pub fn cursor_position(row: usize, len: usize) -> (r: String)
    ensures
        r@ == cursor_position_spec(row as nat, len as nat),
{
    let p: usize = if row < len && row + 1 < len {
        row + 1
    } else {
        len
    };
    let mut s = String::new();
    push_decimal(&mut s, p as u64);
    push_str(&mut s, "/");
    push_decimal(&mut s, len as u64);
    s
}

/// The message of an empty category: still scanning, skipped (with the
/// reason), or already tidy.
pub open spec fn empty_message_spec(st: ScanStatus) -> Seq<char> {
    match st {
        ScanStatus::Pending => "Scanning\u{2026}"@,
        ScanStatus::Scanning { .. } => "Scanning\u{2026}"@,
        ScanStatus::Skipped(reason) => "Skipped: "@ + reason@,
        ScanStatus::Done => "Nothing to clean here \u{2014} this category is already tidy."@,
    }
}

pub fn empty_message(st: &ScanStatus) -> (r: String)
    ensures
        r@ == empty_message_spec(*st),
{
    let mut s = String::new();
    match st {
        ScanStatus::Pending => push_str(&mut s, "Scanning\u{2026}"),
        ScanStatus::Scanning { .. } => push_str(&mut s, "Scanning\u{2026}"),
        ScanStatus::Skipped(reason) => {
            push_str(&mut s, "Skipped: ");
            push_str(&mut s, reason.as_str());
        },
        ScanStatus::Done => push_str(&mut s, "Nothing to clean here \u{2014} this category is already tidy."),
    }
    s
}

/// The box in the first column of a row.
#[derive(Debug, Clone, Copy, PartialEq, Eq, Structural)]
pub enum CheckMark {
    /// The item cannot be selected (a duplicate keeper): `[–]`.
    Locked,
    /// Selected: `[x]`.
    Checked,
    /// Not selected: `[ ]`.
    Unchecked,
}

pub open spec fn check_mark_spec(i: ScanItem) -> CheckMark {
    if !selectable_item(i) {
        CheckMark::Locked
    } else if i.selected {
        CheckMark::Checked
    } else {
        CheckMark::Unchecked
    }
}

pub fn check_mark(item: &ScanItem) -> (r: CheckMark)
    ensures
        r == check_mark_spec(*item),
{
    if !item.selectable() {
        CheckMark::Locked
    } else if item.selected {
        CheckMark::Checked
    } else {
        CheckMark::Unchecked
    }
}

pub open spec fn check_text_spec(m: CheckMark) -> Seq<char> {
    match m {
        CheckMark::Locked => "[\u{2013}]"@,
        CheckMark::Checked => "[x]"@,
        CheckMark::Unchecked => "[ ]"@,
    }
}

pub fn check_text(m: CheckMark) -> (r: &'static str)
    ensures
        r@ == check_text_spec(m),
{
    match m {
        CheckMark::Locked => "[\u{2013}]",
        CheckMark::Checked => "[x]",
        CheckMark::Unchecked => "[ ]",
    }
}

/// The size the bars are scaled to: the largest item's size, at least 1.
pub open spec fn max_bytes_spec(s: Seq<ScanItem>) -> u64
    decreases s.len(),
{
    if s.len() == 0 {
        1
    } else {
        let m = max_bytes_spec(s.drop_last());
        if s.last().real_bytes > m {
            s.last().real_bytes
        } else {
            m
        }
    }
}

pub fn max_item_bytes(items: &Vec<ScanItem>) -> (r: u64)
    ensures
        r == max_bytes_spec(items@),
        r >= 1,
        forall|k: int| 0 <= k < items@.len() ==> items@[k].real_bytes <= r,
{
    let mut m: u64 = 1;
    for i in 0..items.len()
        invariant
            m == max_bytes_spec(items@.take(i as int)),
            m >= 1,
            forall|k: int| 0 <= k < i ==> items@[k].real_bytes <= m,
    {
        assert(items@.take(i + 1).drop_last() =~= items@.take(i as int));
        assert(items@.take(i + 1).last() == items@[i as int]);
        if items[i].real_bytes > m {
            m = items[i].real_bytes;
        }
    }
    assert(items@.take(items@.len() as int) =~= items@);
    m
}

/// The rows shown: from `scroll` up to `visible` rows, within the list, as a
/// half-open range of positions.
pub fn row_window(len: usize, scroll: usize, visible: usize) -> (r: (usize, usize))
    ensures
        r.0 == (if scroll < len {
            scroll
        } else {
            len
        }),
        r.1 == (if scroll + visible < len {
            scroll + visible
        } else {
            len as int
        }),
        r.0 <= r.1 <= len,
{
    let start = if scroll < len {
        scroll
    } else {
        len
    };
    let end = if scroll < len && visible < len - scroll {
        scroll + visible
    } else {
        len
    };
    (start, end)
}

/// Whether the list needs a scroll bar: more items than rows.
pub fn needs_scrollbar(len: usize, visible: usize) -> (r: bool)
    ensures
        r == (len > visible),
{
    len > visible
}

/// Whether anything in the list is selected (and selectable).
pub fn has_selection(items: &Vec<ScanItem>) -> (r: bool)
    ensures
        r == (chosen_items(items@).len() > 0),
{
    let mut found = false;
    for j in 0..items.len()
        invariant
            found == (chosen_items(items@.take(j as int)).len() > 0),
    {
        assert(items@.take(j + 1).drop_last() =~= items@.take(j as int));
        if items[j].selected && items[j].selectable() {
            found = true;
        }
    }
    assert(items@.take(items@.len() as int) =~= items@);
    found
}

} // verus!
