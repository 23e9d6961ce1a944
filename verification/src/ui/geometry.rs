//! Rectangles of the screen, in cells, and the small arithmetic the overlays
//! need: shifting a shadow and clipping it to the screen.
use vstd::prelude::*;

verus! {

#[derive(Debug, Clone, Copy, PartialEq, Eq, Structural)]
pub struct Area {
    pub x: u16,
    pub y: u16,
    pub width: u16,
    pub height: u16,
}

pub open spec fn sat_add16(a: u16, b: u16) -> u16 {
    if a + b > u16::MAX {
        u16::MAX
    } else {
        (a + b) as u16
    }
}

fn add_sat(a: u16, b: u16) -> (r: u16)
    ensures
        r == sat_add16(a, b),
{
    if a <= u16::MAX - b {
        a + b
    } else {
        u16::MAX
    }
}

/// The same rectangle moved right by `dx` and down by `dy` (stopping at the
/// edge of the coordinate range).
pub fn offset(r: Area, dx: u16, dy: u16) -> (o: Area)
    ensures
        o == (Area { x: sat_add16(r.x, dx), y: sat_add16(r.y, dy), width: r.width, height: r.height }),
{
    Area { x: add_sat(r.x, dx), y: add_sat(r.y, dy), width: r.width, height: r.height }
}

pub open spec fn max16(a: u16, b: u16) -> u16 {
    if a >= b {
        a
    } else {
        b
    }
}

pub open spec fn min16(a: u16, b: u16) -> u16 {
    if a <= b {
        a
    } else {
        b
    }
}

/// The part of `inner` that lies inside `outer` (empty when they do not
/// overlap).
pub open spec fn clip_spec(inner: Area, outer: Area) -> Area {
    let x = max16(inner.x, outer.x);
    let y = max16(inner.y, outer.y);
    let right = min16(sat_add16(inner.x, inner.width), sat_add16(outer.x, outer.width));
    let bottom = min16(sat_add16(inner.y, inner.height), sat_add16(outer.y, outer.height));
    Area {
        x,
        y,
        width: if right >= x {
            (right - x) as u16
        } else {
            0
        },
        height: if bottom >= y {
            (bottom - y) as u16
        } else {
            0
        },
    }
}

pub fn clip(inner: Area, outer: Area) -> (r: Area)
    ensures
        r == clip_spec(inner, outer),
{
    let x = if inner.x >= outer.x {
        inner.x
    } else {
        outer.x
    };
    let y = if inner.y >= outer.y {
        inner.y
    } else {
        outer.y
    };
    let ir = add_sat(inner.x, inner.width);
    let or = add_sat(outer.x, outer.width);
    let right = if ir <= or {
        ir
    } else {
        or
    };
    let ib = add_sat(inner.y, inner.height);
    let ob = add_sat(outer.y, outer.height);
    let bottom = if ib <= ob {
        ib
    } else {
        ob
    };
    Area {
        x,
        y,
        width: if right >= x {
            right - x
        } else {
            0
        },
        height: if bottom >= y {
            bottom - y
        } else {
            0
        },
    }
}

} // verus!
