//! Command-line interface: the commands and options, and the category list
//! option. The arguments themselves are read by the application.
use vstd::prelude::*;
use crate::model::{Category, cat_from_slug};
use crate::text::{chars_of, split_chars, split_on, string_from, trim, trim_chars};

verus! {

#[derive(Debug, Clone, PartialEq, Eq)]
pub struct Cli {
    pub command: Option<Commands>,
    /// Skip automatic sudo elevation at startup.
    pub no_elevate: bool,
    /// Config file path.
    pub config: Option<String>,
    /// Dry run: report actions without deleting.
    pub dry_run: bool,
}

#[derive(Debug, Clone, PartialEq, Eq)]
pub enum Commands {
    /// Launch the interactive TUI (default).
    Tui,
    /// Scan and print results.
    Scan {
        /// Output JSON instead of a table.
        json: bool,
        /// Comma-separated categories: caches,logs,dev,duplicates,icloud,large,trash
        categories: Option<String>,
    },
    /// Headless clean.
    Clean {
        categories: String,
        /// Skip confirmation.
        yes: bool,
        /// Permanently delete instead of moving to Trash.
        permanent: bool,
    },
    /// Write the default config to ~/.config/mac-cleaner/config.toml.
    InitConfig,
}

/// The categories named in the first `n` comma-separated pieces, each piece
/// trimmed; pieces that name no category are dropped.
pub open spec fn named_categories(pieces: Seq<Seq<char>>) -> Seq<Category>
    decreases pieces.len(),
{
    if pieces.len() == 0 {
        Seq::empty()
    } else {
        let prev = named_categories(pieces.drop_last());
        match cat_from_slug(trim(pieces.last())) {
            Some(c) => prev.push(c),
            None => prev,
        }
    }
}

impl Cli {
    /// The categories of a comma-separated list such as `caches, logs ,dev`:
    /// surrounding whitespace is ignored and unknown names are dropped.
    pub fn parse_categories(s: &str) -> (r: Vec<Category>)
        ensures
            r@ == named_categories(split_on(s@, ',')),
    {
        let pieces = split_chars(&chars_of(s), ',');
        let ghost sp = split_on(s@, ',');
        let mut r: Vec<Category> = Vec::new();
        for i in 0..pieces.len()
            invariant
                pieces@.len() == sp.len(),
                sp == split_on(s@, ','),
                forall|k: int| 0 <= k < pieces@.len() ==> #[trigger] pieces@[k]@ == sp[k],
                r@ == named_categories(sp.take(i as int)),
        {
            assert(sp.take(i + 1).drop_last() == sp.take(i as int));
            assert(sp.take(i + 1).last() == sp[i as int]);
            let t = string_from(&trim_chars(&pieces[i]));
            match Category::from_slug(t.as_str()) {
                Some(c) => r.push(c),
                None => {},
            }
        }
        assert(sp.take(sp.len() as int) == sp);
        r
    }
}

} // verus!
