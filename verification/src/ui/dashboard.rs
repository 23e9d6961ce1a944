//! Dashboard: which categories get a slice of the reclaimable-space chart.
//! The chart's angles and the drawing are the application's.
use vstd::prelude::*;
use crate::model::{Category, ScanResults, cat_at, sum_bytes};

verus! {

/// The categories among the first `n` display positions that hold any bytes,
/// in display order, each with its total.
pub open spec fn slices_upto(r: ScanResults, n: nat) -> Seq<(Category, u64)>
    decreases n,
{
    if n == 0 {
        Seq::empty()
    } else {
        let prev = slices_upto(r, (n - 1) as nat);
        let c = cat_at(n - 1);
        let b = sum_bytes(r.cat_items(c));
        if b == 0 {
            prev
        } else {
            prev.push((c, b as u64))
        }
    }
}

/// One slice per category with reclaimable bytes, in display order.
pub fn slices(results: &ScanResults) -> (r: Vec<(Category, u64)>)
    requires
        results.wf(),
        forall|c: Category| #[trigger] sum_bytes(results.cat_items(c)) <= u64::MAX,
    ensures
        r@ == slices_upto(*results, 7),
{
    let mut out: Vec<(Category, u64)> = Vec::new();
    for i in 0..7usize
        invariant
            results.wf(),
            forall|c: Category| #[trigger] sum_bytes(results.cat_items(c)) <= u64::MAX,
            out@ == slices_upto(*results, i as nat),
    {
        let c = Category::from_index(i);
        let b = results.total_bytes(c);
        if b != 0 {
            out.push((c, b));
        }
    }
    out
}

} // verus!
