//! Header: the shortcut hints beside the disk gauge and the gauge's label.
use vstd::prelude::*;
use crate::event::DiskInfo;
use crate::fs_util::{human_size, human_size_spec};
use crate::text::{dec, push_decimal, push_str};
use crate::ui::widgets::{KeyHint, hints_width};

verus! {

/// Width of the totals box on the left.
pub const LEFT_W: u16 = 46;

/// Narrowest disk gauge worth drawing.
pub const MIN_GAUGE_W: u16 = 10;

/// The hints that fit in `room` columns: all three with labels from 26
/// columns, two with labels from 17, two bare keys from 5, else none.
pub open spec fn header_hints(room: nat) -> Seq<KeyHint> {
    if room >= 26 {
        seq![("?", "help"), ("r", "rescan"), ("q", "quit")]
    } else if room >= 17 {
        seq![("?", "help"), ("r", "rescan")]
    } else if room >= 5 {
        seq![("?", ""), ("r", "")]
    } else {
        seq![]
    }
}

/// Shortcut hints shown beside the disk gauge (same row).
pub fn hint_pairs(hint_room: u16) -> (r: Vec<KeyHint>)
    ensures
        r@ == header_hints(hint_room as nat),
        hints_width(r@) <= hint_room,
{
    proof {
        reveal_strlit("?");
        reveal_strlit("help");
        reveal_strlit("r");
        reveal_strlit("rescan");
        reveal_strlit("q");
        reveal_strlit("quit");
        reveal_strlit("");
        reveal_with_fuel(hints_width, 4);
    }
    if hint_room >= 26 {
        vec![("?", "help"), ("r", "rescan"), ("q", "quit")]
    } else if hint_room >= 17 {
        vec![("?", "help"), ("r", "rescan")]
    } else if hint_room >= 5 {
        vec![("?", ""), ("r", "")]
    } else {
        vec![]
    }
}

/// Columns left for hints in a disk box of inner width `inner_width`: what
/// the narrowest gauge and one spacer leave over.
pub fn hint_room(inner_width: u16) -> (r: u16)
    ensures
        r == (if inner_width >= MIN_GAUGE_W + 1 {
            inner_width - MIN_GAUGE_W - 1
        } else {
            0
        }),
{
    if inner_width >= MIN_GAUGE_W + 1 {
        inner_width - MIN_GAUGE_W - 1
    } else {
        0
    }
}

pub open spec fn used_spec(d: DiskInfo) -> nat {
    if d.total >= d.free {
        (d.total - d.free) as nat
    } else {
        0
    }
}

pub open spec fn used_percent_spec(d: DiskInfo) -> nat {
    if d.total == 0 {
        0
    } else {
        used_spec(d) * 100 / (d.total as nat)
    }
}

/// The gauge label for a gauge of `width` columns: used and free space in
/// words from 36 columns, used / free from 22, else the used share in whole
/// percent.
pub open spec fn disk_label_spec(d: DiskInfo, width: nat) -> Seq<char> {
    if width >= 36 {
        human_size_spec(used_spec(d)) + " used / "@ + human_size_spec(d.free as nat) + " free"@
    } else if width >= 22 {
        human_size_spec(used_spec(d)) + " / "@ + human_size_spec(d.free as nat)
    } else {
        dec(used_percent_spec(d)) + "%"@
    }
}

/// Shorter disk label when the gauge column is narrow.
pub fn disk_label(disk: DiskInfo, width: u16) -> (r: String)
    ensures
        r@ == disk_label_spec(disk, width as nat),
{
    let mut s = String::new();
    if width >= 36 {
        let u = human_size(disk.used());
        push_str(&mut s, u.as_str());
        push_str(&mut s, " used / ");
        let f = human_size(disk.free);
        push_str(&mut s, f.as_str());
        push_str(&mut s, " free");
    } else if width >= 22 {
        let u = human_size(disk.used());
        push_str(&mut s, u.as_str());
        push_str(&mut s, " / ");
        let f = human_size(disk.free);
        push_str(&mut s, f.as_str());
    } else {
        push_decimal(&mut s, disk.used_percent());
        push_str(&mut s, "%");
    }
    s
}

} // verus!
