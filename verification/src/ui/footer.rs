//! Footer: which key legend fits the terminal, and how tall the footer is.
use vstd::prelude::*;
use crate::fs_util::{human_size, human_size_spec};
use crate::model::{ScanResults, chosen_items, sum_bytes, sum_item_bytes};
use crate::text::{dec, owned, push_decimal, push_str};
use crate::ui::widgets::{KeyHint, hints_width, key_hint_width, spinner_frame, spinner_frames};

verus! {

pub open spec fn full_hints() -> Seq<KeyHint> {
    seq![
        ("Tab", "switch view"),
        ("Space", "select"),
        ("a", "all"),
        ("s", "all safe"),
        ("i", "invert"),
        ("n", "clear"),
        ("d", "clean"),
        ("D", "delete forever"),
        ("r", "rescan"),
        ("?", "help"),
        ("q", "quit"),
    ]
}

pub open spec fn medium_top_hints() -> Seq<KeyHint> {
    seq![
        ("Tab", "switch view"),
        ("Space", "select"),
        ("a", "all"),
        ("s", "all safe"),
        ("i", "invert"),
        ("n", "clear"),
    ]
}

pub open spec fn medium_bottom_hints() -> Seq<KeyHint> {
    seq![("d", "move to Trash"), ("D", "delete forever"), ("r", "rescan"), ("?", "help"), ("q", "quit")]
}

pub open spec fn compact_top_hints() -> Seq<KeyHint> {
    seq![("Space", "sel"), ("a", "all"), ("s", "safe"), ("i", "inv"), ("n", "clr")]
}

pub open spec fn compact_bottom_hints() -> Seq<KeyHint> {
    seq![("d", "trash"), ("D", "del!"), ("r", "scan"), ("?", ""), ("q", "")]
}

/// The full legend on one line.
pub fn full() -> (r: Vec<KeyHint>)
    ensures
        r@ == full_hints(),
{
    vec![
        ("Tab", "switch view"),
        ("Space", "select"),
        ("a", "all"),
        ("s", "all safe"),
        ("i", "invert"),
        ("n", "clear"),
        ("d", "clean"),
        ("D", "delete forever"),
        ("r", "rescan"),
        ("?", "help"),
        ("q", "quit"),
    ]
}

/// First line of the two-line legend for medium widths.
pub fn medium_top() -> (r: Vec<KeyHint>)
    ensures
        r@ == medium_top_hints(),
{
    vec![
        ("Tab", "switch view"),
        ("Space", "select"),
        ("a", "all"),
        ("s", "all safe"),
        ("i", "invert"),
        ("n", "clear"),
    ]
}

/// Second line of the two-line legend for medium widths.
pub fn medium_bottom() -> (r: Vec<KeyHint>)
    ensures
        r@ == medium_bottom_hints(),
{
    vec![("d", "move to Trash"), ("D", "delete forever"), ("r", "rescan"), ("?", "help"), ("q", "quit")]
}

/// First line of the compact legend for narrow terminals.
pub fn compact_top() -> (r: Vec<KeyHint>)
    ensures
        r@ == compact_top_hints(),
{
    vec![("Space", "sel"), ("a", "all"), ("s", "safe"), ("i", "inv"), ("n", "clr")]
}

/// Second line of the compact legend for narrow terminals.
pub fn compact_bottom() -> (r: Vec<KeyHint>)
    ensures
        r@ == compact_bottom_hints(),
{
    vec![("d", "trash"), ("D", "del!"), ("r", "scan"), ("?", ""), ("q", "")]
}

/// The display widths of the legend lines: 130 for the full line, 72 and 63
/// for the medium lines, 42 and 33 for the compact ones.
pub proof fn lemma_legend_widths()
    ensures
        hints_width(full_hints()) == 130,
        hints_width(medium_top_hints()) == 72,
        hints_width(medium_bottom_hints()) == 63,
        hints_width(compact_top_hints()) == 42,
        hints_width(compact_bottom_hints()) == 33,
{
    reveal_strlit("Tab");
    reveal_strlit("switch view");
    reveal_strlit("Space");
    reveal_strlit("select");
    reveal_strlit("a");
    reveal_strlit("all");
    reveal_strlit("s");
    reveal_strlit("all safe");
    reveal_strlit("i");
    reveal_strlit("invert");
    reveal_strlit("n");
    reveal_strlit("clear");
    reveal_strlit("d");
    reveal_strlit("clean");
    reveal_strlit("D");
    reveal_strlit("delete forever");
    reveal_strlit("r");
    reveal_strlit("rescan");
    reveal_strlit("?");
    reveal_strlit("help");
    reveal_strlit("q");
    reveal_strlit("quit");
    reveal_strlit("move to Trash");
    reveal_strlit("sel");
    reveal_strlit("safe");
    reveal_strlit("inv");
    reveal_strlit("clr");
    reveal_strlit("trash");
    reveal_strlit("del!");
    reveal_strlit("scan");
    reveal_strlit("");
    reveal_with_fuel(hints_width, 12);
}

/// The compact legend lines fit a 46-column footer.
pub proof fn lemma_compact_fits_narrow_widths()
    ensures
        hints_width(compact_top_hints()) <= 46,
        hints_width(compact_bottom_hints()) <= 46,
{
    lemma_legend_widths();
}

/// The legend lines for an inner width: everything on one line when it fits,
/// else the two medium lines when both fit, else the two compact lines.
pub open spec fn legend_spec(width: nat) -> Seq<Seq<KeyHint>> {
    if hints_width(full_hints()) <= width {
        seq![full_hints()]
    } else if hints_width(medium_top_hints()) <= width && hints_width(medium_bottom_hints()) <= width {
        seq![medium_top_hints(), medium_bottom_hints()]
    } else {
        seq![compact_top_hints(), compact_bottom_hints()]
    }
}

/// The key legend lines for a footer of inner width `width`.
pub fn key_legend(width: u16) -> (r: Vec<Vec<KeyHint>>)
    ensures
        r@.len() == legend_spec(width as nat).len(),
        forall|i: int| 0 <= i < r@.len() ==> #[trigger] r@[i]@ == legend_spec(width as nat)[i],
{
    proof {
        lemma_legend_widths();
    }
    let w = width as usize;
    let f = full();
    if key_hint_width(f.as_slice()) <= w {
        return vec![f];
    }
    let mt = medium_top();
    let mb = medium_bottom();
    if key_hint_width(mt.as_slice()) <= w && key_hint_width(mb.as_slice()) <= w {
        return vec![mt, mb];
    }
    vec![compact_top(), compact_bottom()]
}

/// Width inside the footer's borders.
pub open spec fn inner_width_spec(terminal_width: u16) -> u16 {
    if terminal_width >= 2 {
        (terminal_width - 2) as u16
    } else {
        0
    }
}

pub fn inner_width(terminal_width: u16) -> (r: u16)
    ensures
        r == inner_width_spec(terminal_width),
{
    if terminal_width >= 2 {
        terminal_width - 2
    } else {
        0
    }
}

/// Outer footer height: the status line and the legend lines, plus two
/// border rows.
pub open spec fn outer_height_spec(terminal_width: u16) -> u16 {
    (3 + legend_spec(inner_width_spec(terminal_width) as nat).len()) as u16
}

/// Outer footer height (including block borders) for layout.
pub fn outer_height(terminal_width: u16) -> (r: u16)
    ensures
        r == outer_height_spec(terminal_width),
        r == (if inner_width_spec(terminal_width) >= 130 {
            4u16
        } else {
            5u16
        }),
{
    proof {
        lemma_legend_widths();
    }
    let inner_w = inner_width(terminal_width);
    let lines = key_legend(inner_w);
    1 + (lines.len() as u16) + 2
}

/// The first line of the footer.
#[derive(Debug, Clone, PartialEq, Eq)]
pub enum StatusLine {
    /// A scan runs: the spinner with its caption, then the latest status.
    Scanning { spinner: String, status: String },
    /// Something is selected: how many items and how much space.
    Selected(String),
    /// Nothing is selected: how to select.
    Idle(&'static str),
}

/// What the footer's first line says: the spinner and the scan's status while
/// scanning; otherwise the selection's count and size, or a hint when nothing
/// is selected.
pub fn status_line(results: &ScanResults, scanning: bool, tick: u64, status: &str) -> (r: StatusLine)
    requires
        results.wf(),
        sum_bytes(chosen_items(results.every_item())) <= u64::MAX,
    ensures
        scanning ==> (r matches StatusLine::Scanning { spinner, status: st } && spinner@
            == spinner_frames()[((tick as usize) % 10) as int] + " Scanning\u{2026} "@ && st@ == status@),
        !scanning && chosen_items(results.every_item()).len() > 0 ==> (r matches StatusLine::Selected(t) && t@
            == dec(chosen_items(results.every_item()).len()) + " selected \u{b7} "@ + human_size_spec(
            sum_bytes(chosen_items(results.every_item())),
        )),
        !scanning && chosen_items(results.every_item()).len() == 0 ==> (r matches StatusLine::Idle(t) && t@
            == "Nothing selected \u{2014} Space toggles an item, s selects everything Safe"@),
{
    if scanning {
        let mut spinner = owned(spinner_frame(tick));
        push_str(&mut spinner, " Scanning\u{2026} ");
        return StatusLine::Scanning { spinner, status: owned(status) };
    }
    let sel = results.selected_items();
    if sel.len() > 0 {
        let mut t = String::new();
        push_decimal(&mut t, sel.len() as u64);
        push_str(&mut t, " selected \u{b7} ");
        let h = human_size(sum_item_bytes(&sel));
        push_str(&mut t, h.as_str());
        StatusLine::Selected(t)
    } else {
        StatusLine::Idle("Nothing selected \u{2014} Space toggles an item, s selects everything Safe")
    }
}

} // verus!
