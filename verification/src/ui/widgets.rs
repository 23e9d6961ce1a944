//! Reusable small widgets: the spinner and key-hint widths.
use vstd::prelude::*;
use crate::text::chars_of;

verus! {

pub open spec fn spinner_frames() -> Seq<Seq<char>> {
    seq![
        "\u{280b}"@,
        "\u{2819}"@,
        "\u{2839}"@,
        "\u{2838}"@,
        "\u{283c}"@,
        "\u{2834}"@,
        "\u{2826}"@,
        "\u{2827}"@,
        "\u{2807}"@,
        "\u{280f}"@,
    ]
}

/// The spinner frame for an animation tick (ten frames, cycling).
pub fn spinner_frame(tick: u64) -> (r: &'static str)
    ensures
        r@ == spinner_frames()[((tick as usize) % 10) as int],
{
    let i = (tick as usize) % 10;
    if i == 0 {
        "\u{280b}"
    } else if i == 1 {
        "\u{2819}"
    } else if i == 2 {
        "\u{2839}"
    } else if i == 3 {
        "\u{2838}"
    } else if i == 4 {
        "\u{283c}"
    } else if i == 5 {
        "\u{2834}"
    } else if i == 6 {
        "\u{2826}"
    } else if i == 7 {
        "\u{2827}"
    } else if i == 8 {
        "\u{2807}"
    } else {
        "\u{280f}"
    }
}

/// A `(shortcut, description)` pair rendered as `key label`.
pub type KeyHint = (&'static str, &'static str);

/// Gap between hints on one line.
pub const HINT_GAP: usize = 3;

/// Display width of one hint: the key, then a space and the label if any.
pub open spec fn hint_width(h: KeyHint) -> nat {
    h.0@.len() + if h.1@.len() == 0 {
        0
    } else {
        1 + h.1@.len()
    }
}

/// Display width of a hint line: the hints separated by three spaces.
pub open spec fn hints_width(pairs: Seq<KeyHint>) -> nat
    decreases pairs.len(),
{
    if pairs.len() == 0 {
        0
    } else if pairs.len() == 1 {
        hint_width(pairs[0])
    } else {
        hints_width(pairs.drop_last()) + 3 + hint_width(pairs.last())
    }
}

/// Display width of a hint line, for width-aware layout decisions.
pub fn key_hint_width(pairs: &[KeyHint]) -> (r: usize)
    requires
        hints_width(pairs@) <= usize::MAX,
    ensures
        r == hints_width(pairs@),
{
    let mut w: usize = 0;
    for i in 0..pairs.len()
        invariant
            hints_width(pairs@) <= usize::MAX,
            w == hints_width(pairs@.take(i as int)),
    {
        proof {
            assert(pairs@.take(i + 1).drop_last() == pairs@.take(i as int));
            assert(pairs@.take(i + 1).last() == pairs@[i as int]);
            lemma_hints_width_prefix(pairs@, i + 1);
        }
        let (key, label) = pairs[i];
        let k = chars_of(key).len();
        let l = chars_of(label).len();
        if i > 0 {
            w = w + HINT_GAP;
        }
        w = w + k;
        if l > 0 {
            w = w + 1 + l;
        }
        proof {
            if i == 0 {
                assert(pairs@.take(1).len() == 1);
            }
        }
    }
    assert(pairs@.take(pairs@.len() as int) == pairs@);
    w
}

pub proof fn lemma_hints_width_prefix(s: Seq<KeyHint>, i: int)
    requires
        0 <= i <= s.len(),
    ensures
        hints_width(s.take(i)) <= hints_width(s),
    decreases s.len() - i,
{
    if i < s.len() {
        lemma_hints_width_prefix(s, i + 1);
        assert(s.take(i + 1).drop_last() == s.take(i));
        if i == 0 {
            assert(s.take(0).len() == 0);
        }
    } else {
        assert(s.take(i) == s);
    }
}

} // verus!
