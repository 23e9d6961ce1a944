//! Headless runs of the `scan` and `clean` subcommands: which categories run,
//! when the results are complete, the printed report and the clean plan.
use vstd::prelude::*;
use crate::clean::CleanOptions;
use crate::cli::{Cli, named_categories};
use crate::config::DeleteMode;
use crate::event::WorkerMsg;
use crate::fs_util::{human_size, human_size_spec};
use crate::model::{
    Category, ScanItem, ScanResults, cat_at, cat_title, chosen_items, ingested, sum_bytes, tier_label,
};
use crate::text::{owned, pad_left, pad_left_spec, push_str, split_on};

verus! {

/// What `clean` prints when nothing is selected.
pub const NOTHING_TO_CLEAN: &'static str = "No safe items selected to clean.";

/// The categories a headless scan covers: those named in the list, or all of
/// them when it names none (or there is no list).
pub open spec fn scan_categories_spec(cats: Option<Seq<char>>) -> Seq<Category> {
    let all = Seq::new(7, |i: int| cat_at(i));
    match cats {
        Some(s) => if named_categories(split_on(s, ',')).len() > 0 {
            named_categories(split_on(s, ','))
        } else {
            all
        },
        None => all,
    }
}

pub fn scan_categories(cats: Option<&str>) -> (r: Vec<Category>)
    ensures
        r@ == scan_categories_spec(
            match cats {
                Some(s) => Some(s@),
                None => None,
            },
        ),
{
    match cats {
        Some(s) => {
            let v = Cli::parse_categories(s);
            if v.len() > 0 {
                return v;
            }
        },
        None => {},
    }
    let all = Category::all();
    assert(all@ =~= Seq::new(7, |i: int| cat_at(i)));
    all
}

/// Results gathered from the scan workers, and how many categories have
/// reported (done or skipped).
pub struct Collector {
    pub results: ScanResults,
    pub done: usize,
}

impl Collector {
    pub fn new() -> (r: Self)
        ensures
            r.results.wf(),
            forall|c: Category| (#[trigger] r.results.cat_items(c)).len() == 0,
            r.done == 0,
    {
        Collector { results: ScanResults::new(), done: 0 }
    }

    /// Takes one worker message: a finished category is ingested and counted,
    /// a skipped one counted; anything else is ignored.
    pub fn on_message(&mut self, msg: WorkerMsg)
        requires
            old(self).results.wf(),
            old(self).done < usize::MAX,
        ensures
            final(self).results.wf(),
            match msg {
                WorkerMsg::ScanDone { category, items } => ingested(old(self).results, category, items@, final(self).results)
                    && final(self).done == old(self).done + 1,
                WorkerMsg::ScanSkipped { .. } => final(self).results == old(self).results && final(self).done
                    == old(self).done + 1,
                _ => *final(self) == *old(self),
            },
    {
        match msg {
            WorkerMsg::ScanDone { category, items } => {
                self.results.ingest(category, items);
                self.done = self.done + 1;
            },
            WorkerMsg::ScanSkipped { .. } => {
                self.done = self.done + 1;
            },
            _ => {},
        }
    }

    /// Every expected category has reported.
    pub fn finished(&self, expected: usize) -> (r: bool)
        ensures
            r == (self.done >= expected),
    {
        self.done >= expected
    }
}

/// One report line per item: the size right-aligned in eight columns, the
/// label and the tier.
pub open spec fn item_line_spec(i: ScanItem) -> Seq<char> {
    "  "@ + pad_left_spec(human_size_spec(i.real_bytes as nat), 8) + "  "@ + i.label@ + "  ["@ + tier_label(i.tier)
        + "]"@
}

pub fn item_line(i: &ScanItem) -> (r: String)
    ensures
        r@ == item_line_spec(*i),
{
    let mut s = String::new();
    push_str(&mut s, "  ");
    let h = human_size(i.real_bytes);
    let p = pad_left(h.as_str(), 8);
    push_str(&mut s, p.as_str());
    push_str(&mut s, "  ");
    push_str(&mut s, i.label.as_str());
    push_str(&mut s, "  [");
    push_str(&mut s, i.tier.label());
    push_str(&mut s, "]");
    s
}

/// The lines of one category's section: a blank line and its heading, then
/// its items.
pub open spec fn section_spec(c: Category, items: Seq<ScanItem>) -> Seq<Seq<char>> {
    seq!["\n## "@ + cat_title(c)] + items.map_values(|i: ScanItem| item_line_spec(i))
}

/// The sections of the listed categories, in order.
pub open spec fn sections_spec(r: ScanResults, cats: Seq<Category>) -> Seq<Seq<char>>
    decreases cats.len(),
{
    if cats.len() == 0 {
        Seq::empty()
    } else {
        sections_spec(r, cats.drop_last()) + section_spec(cats.last(), r.cat_items(cats.last()))
    }
}

/// The text report of a headless scan: each category's section, then the
/// total.
pub fn report_lines(results: &ScanResults, cats: &Vec<Category>) -> (r: Vec<String>)
    requires
        results.wf(),
        sum_bytes(results.every_item()) <= u64::MAX,
    ensures
        r@.len() == sections_spec(*results, cats@).len() + 1,
        forall|i: int| 0 <= i < sections_spec(*results, cats@).len() ==> #[trigger] r@[i]@ == sections_spec(*results, cats@)[i],
        r@.last()@ == "\nTotal reclaimable: "@ + human_size_spec(sum_bytes(results.every_item())),
{
    let mut out: Vec<String> = Vec::new();
    for k in 0..cats.len()
        invariant
            results.wf(),
            out@.len() == sections_spec(*results, cats@.take(k as int)).len(),
            forall|i: int| 0 <= i < out@.len() ==> #[trigger] out@[i]@ == sections_spec(*results, cats@.take(k as int))[i],
    {
        assert(cats@.take(k + 1).drop_last() == cats@.take(k as int));
        assert(cats@.take(k + 1).last() == cats@[k as int]);
        let c = cats[k];
        let ghost base = sections_spec(*results, cats@.take(k as int));
        let ghost sec = section_spec(c, results.cat_items(c));
        let mut head = owned("\n## ");
        push_str(&mut head, c.title());
        out.push(head);
        let items = results.items_for(c);
        for j in 0..items.len()
            invariant
                out@.len() == base.len() + 1 + j,
                items@ == results.cat_items(c),
                sec == section_spec(c, results.cat_items(c)),
                forall|i: int| 0 <= i < base.len() + 1 + j ==> #[trigger] out@[i]@ == (base + sec)[i],
        {
            out.push(item_line(&items[j]));
        }
        assert(sections_spec(*results, cats@.take(k + 1)) == base + sec);
    }
    assert(cats@.take(cats@.len() as int) == cats@);
    let mut total = owned("\nTotal reclaimable: ");
    let h = human_size(results.total_reclaimable());
    push_str(&mut total, h.as_str());
    out.push(total);
    out
}

/// What a headless clean does: nothing when nothing is selected; otherwise
/// clean every selected item, permanently when asked (which also switches
/// the delete mode to permanent).
pub fn clean_plan(results: &ScanResults, permanent: bool, dry_run: bool, mode: DeleteMode) -> (r: Option<(Vec<ScanItem>, CleanOptions)>)
    requires
        results.wf(),
    ensures
        chosen_items(results.every_item()).len() == 0 ==> r is None,
        chosen_items(results.every_item()).len() > 0 ==> (r matches Some((items, opts)) && items@ == chosen_items(
            results.every_item(),
        ) && opts == (CleanOptions {
            permanent,
            dry_run,
            mode: if permanent {
                DeleteMode::Permanent
            } else {
                mode
            },
        })),
{
    let selected = results.selected_items();
    if selected.len() == 0 {
        return None;
    }
    let m = if permanent {
        DeleteMode::Permanent
    } else {
        mode
    };
    Some((selected, CleanOptions { permanent, dry_run, mode: m }))
}

/// `Freed <size>`.
pub fn freed_line(freed: u64) -> (r: String)
    ensures
        r@ == "Freed "@ + human_size_spec(freed as nat),
{
    let mut s = owned("Freed ");
    let h = human_size(freed);
    push_str(&mut s, h.as_str());
    s
}

/// `  error: <failure>`.
pub fn failure_line(f: &str) -> (r: String)
    ensures
        r@ == "  error: "@ + f@,
{
    let mut s = owned("  error: ");
    push_str(&mut s, f);
    s
}

} // verus!
