//! Color palette.
//!
//! Terminal.app does not render truecolor reliably, so the palette falls back
//! to xterm-256 colors when needed. Which palette a terminal gets is decided
//! here from its `TERM_PROGRAM` and `COLORTERM`; the application reads those
//! and turns each shade into a terminal color.
use vstd::prelude::*;
use crate::model::{Category, SafetyTier};
use crate::text::{chars_of, contains_folded, contains_folded_chars, lower_ascii_text};
use crate::model::str_equal;

verus! {

/// A terminal color: 24-bit RGB or an xterm-256 palette index.
#[derive(Debug, Clone, Copy, PartialEq, Eq, Structural)]
pub enum Shade {
    Rgb(u8, u8, u8),
    Indexed(u8),
}

#[derive(Debug, Clone, Copy, PartialEq, Eq, Structural)]
pub struct Palette {
    pub surface: Shade,
    pub border: Shade,
    pub text: Shade,
    pub dim: Shade,
    pub accent: Shade,
    pub safe: Shade,
    pub moderate: Shade,
    pub risky: Shade,
    pub highlight: Shade,
    pub selection_bg: Shade,
    pub cat_caches: Shade,
    pub cat_logs: Shade,
    pub cat_dev_artifacts: Shade,
    pub cat_duplicates: Shade,
    pub cat_icloud: Shade,
    pub cat_large: Shade,
    pub cat_trash: Shade,
    pub modal_backdrop: Shade,
    pub modal_shadow: Shade,
    pub modal_elevated: Shade,
}

/// Every shade of the palette is an RGB color.
pub open spec fn all_rgb(p: Palette) -> bool {
    let is_rgb = |s: Shade| s is Rgb;
    is_rgb(p.surface) && is_rgb(p.border) && is_rgb(p.text) && is_rgb(p.dim) && is_rgb(p.accent)
        && is_rgb(p.safe) && is_rgb(p.moderate) && is_rgb(p.risky) && is_rgb(p.highlight)
        && is_rgb(p.selection_bg) && is_rgb(p.cat_caches) && is_rgb(p.cat_logs)
        && is_rgb(p.cat_dev_artifacts) && is_rgb(p.cat_duplicates) && is_rgb(p.cat_icloud)
        && is_rgb(p.cat_large) && is_rgb(p.cat_trash) && is_rgb(p.modal_backdrop)
        && is_rgb(p.modal_shadow) && is_rgb(p.modal_elevated)
}

/// Every shade of the palette is an xterm-256 index.
pub open spec fn all_indexed(p: Palette) -> bool {
    let is_ix = |s: Shade| s is Indexed;
    is_ix(p.surface) && is_ix(p.border) && is_ix(p.text) && is_ix(p.dim) && is_ix(p.accent)
        && is_ix(p.safe) && is_ix(p.moderate) && is_ix(p.risky) && is_ix(p.highlight)
        && is_ix(p.selection_bg) && is_ix(p.cat_caches) && is_ix(p.cat_logs)
        && is_ix(p.cat_dev_artifacts) && is_ix(p.cat_duplicates) && is_ix(p.cat_icloud)
        && is_ix(p.cat_large) && is_ix(p.cat_trash) && is_ix(p.modal_backdrop)
        && is_ix(p.modal_shadow) && is_ix(p.modal_elevated)
}

pub open spec fn truecolor_palette() -> Palette {
    Palette {
        surface: Shade::Rgb(28, 28, 38),
        border: Shade::Rgb(100, 100, 125),
        text: Shade::Rgb(220, 220, 230),
        dim: Shade::Rgb(175, 175, 200),
        accent: Shade::Rgb(120, 180, 255),
        safe: Shade::Rgb(100, 220, 140),
        moderate: Shade::Rgb(240, 200, 80),
        risky: Shade::Rgb(240, 100, 100),
        highlight: Shade::Rgb(180, 140, 255),
        selection_bg: Shade::Rgb(48, 54, 80),
        cat_caches: Shade::Rgb(100, 180, 255),
        cat_logs: Shade::Rgb(255, 175, 90),
        cat_dev_artifacts: Shade::Rgb(120, 220, 170),
        cat_duplicates: Shade::Rgb(180, 140, 255),
        cat_icloud: Shade::Rgb(90, 210, 230),
        cat_large: Shade::Rgb(255, 120, 175),
        cat_trash: Shade::Rgb(220, 110, 110),
        modal_backdrop: Shade::Rgb(10, 10, 16),
        modal_shadow: Shade::Rgb(4, 4, 8),
        modal_elevated: Shade::Rgb(44, 44, 58),
    }
}

pub open spec fn indexed_palette() -> Palette {
    Palette {
        surface: Shade::Indexed(235),
        border: Shade::Indexed(250),
        text: Shade::Indexed(252),
        dim: Shade::Indexed(251),
        accent: Shade::Indexed(111),
        safe: Shade::Indexed(78),
        moderate: Shade::Indexed(221),
        risky: Shade::Indexed(203),
        highlight: Shade::Indexed(141),
        selection_bg: Shade::Indexed(238),
        cat_caches: Shade::Indexed(111),
        cat_logs: Shade::Indexed(215),
        cat_dev_artifacts: Shade::Indexed(115),
        cat_duplicates: Shade::Indexed(141),
        cat_icloud: Shade::Indexed(87),
        cat_large: Shade::Indexed(213),
        cat_trash: Shade::Indexed(203),
        modal_backdrop: Shade::Indexed(233),
        modal_shadow: Shade::Indexed(232),
        modal_elevated: Shade::Indexed(237),
    }
}

impl Palette {
    /// The 24-bit palette.
    pub fn truecolor() -> (r: Self)
        ensures
            r == truecolor_palette(),
            all_rgb(r),
    {
        Palette {
            surface: Shade::Rgb(28, 28, 38),
            border: Shade::Rgb(100, 100, 125),
            text: Shade::Rgb(220, 220, 230),
            dim: Shade::Rgb(175, 175, 200),
            accent: Shade::Rgb(120, 180, 255),
            safe: Shade::Rgb(100, 220, 140),
            moderate: Shade::Rgb(240, 200, 80),
            risky: Shade::Rgb(240, 100, 100),
            highlight: Shade::Rgb(180, 140, 255),
            selection_bg: Shade::Rgb(48, 54, 80),
            cat_caches: Shade::Rgb(100, 180, 255),
            cat_logs: Shade::Rgb(255, 175, 90),
            cat_dev_artifacts: Shade::Rgb(120, 220, 170),
            cat_duplicates: Shade::Rgb(180, 140, 255),
            cat_icloud: Shade::Rgb(90, 210, 230),
            cat_large: Shade::Rgb(255, 120, 175),
            cat_trash: Shade::Rgb(220, 110, 110),
            modal_backdrop: Shade::Rgb(10, 10, 16),
            modal_shadow: Shade::Rgb(4, 4, 8),
            modal_elevated: Shade::Rgb(44, 44, 58),
        }
    }

    /// The xterm-256 palette.
    pub fn indexed() -> (r: Self)
        ensures
            r == indexed_palette(),
            all_indexed(r),
    {
        Palette {
            surface: Shade::Indexed(235),
            border: Shade::Indexed(250),
            text: Shade::Indexed(252),
            dim: Shade::Indexed(251),
            accent: Shade::Indexed(111),
            safe: Shade::Indexed(78),
            moderate: Shade::Indexed(221),
            risky: Shade::Indexed(203),
            highlight: Shade::Indexed(141),
            selection_bg: Shade::Indexed(238),
            cat_caches: Shade::Indexed(111),
            cat_logs: Shade::Indexed(215),
            cat_dev_artifacts: Shade::Indexed(115),
            cat_duplicates: Shade::Indexed(141),
            cat_icloud: Shade::Indexed(87),
            cat_large: Shade::Indexed(213),
            cat_trash: Shade::Indexed(203),
            modal_backdrop: Shade::Indexed(233),
            modal_shadow: Shade::Indexed(232),
            modal_elevated: Shade::Indexed(237),
        }
    }

    /// The palette for a terminal that does (or does not) render truecolor.
    pub fn for_terminal(truecolor: bool) -> (r: Self)
        ensures
            r == (if truecolor {
                truecolor_palette()
            } else {
                indexed_palette()
            }),
    {
        if truecolor {
            Palette::truecolor()
        } else {
            Palette::indexed()
        }
    }

    /// The shade of a safety tier.
    pub fn tier_shade(&self, tier: SafetyTier) -> (r: Shade)
        ensures
            r == (match tier {
                SafetyTier::Safe => self.safe,
                SafetyTier::Moderate => self.moderate,
                SafetyTier::Risky => self.risky,
            }),
    {
        match tier {
            SafetyTier::Safe => self.safe,
            SafetyTier::Moderate => self.moderate,
            SafetyTier::Risky => self.risky,
        }
    }

    /// The shade of a category in the sidebar and the dashboard.
    pub fn category_shade(&self, cat: Category) -> (r: Shade)
        ensures
            r == (match cat {
                Category::Caches => self.cat_caches,
                Category::Logs => self.cat_logs,
                Category::DevArtifacts => self.cat_dev_artifacts,
                Category::Duplicates => self.cat_duplicates,
                Category::ICloud => self.cat_icloud,
                Category::LargeFiles => self.cat_large,
                Category::Trash => self.cat_trash,
            }),
    {
        match cat {
            Category::Caches => self.cat_caches,
            Category::Logs => self.cat_logs,
            Category::DevArtifacts => self.cat_dev_artifacts,
            Category::Duplicates => self.cat_duplicates,
            Category::ICloud => self.cat_icloud,
            Category::LargeFiles => self.cat_large,
            Category::Trash => self.cat_trash,
        }
    }
}

/// The palette to start with: truecolor when the terminal renders it.
pub fn init(truecolor: bool) -> (r: Palette)
    ensures
        r == (if truecolor {
            truecolor_palette()
        } else {
            indexed_palette()
        }),
{
    Palette::for_terminal(truecolor)
}

/// Terminal programs known to render truecolor.
pub open spec fn truecolor_program(p: Seq<char>) -> bool {
    p == "iTerm.app"@ || p == "WezTerm"@ || p == "vscode"@ || p == "Hyper"@ || p == "kitty"@
        || p == "ghostty"@
}

/// Whether a terminal with these `TERM_PROGRAM` and `COLORTERM` values is
/// expected to render RGB colors: never Terminal.app; otherwise when
/// `COLORTERM` (in any case) mentions `truecolor` or `24bit`, or the program is
/// one known to.
pub open spec fn truecolor_terminal(term_program: Option<&str>, colorterm: Option<&str>) -> bool {
    if term_program matches Some(p) && p@ == "Apple_Terminal"@ {
        false
    } else {
        (colorterm matches Some(v) && (contains_folded(v@, "truecolor"@) || contains_folded(v@, "24bit"@)))
            || (term_program matches Some(p) && truecolor_program(p@))
    }
}

/// Whether the terminal is expected to render `Rgb` shades correctly, from
/// the values of `TERM_PROGRAM` and `COLORTERM` (`None` when unset).
pub fn supports_truecolor(term_program: Option<&str>, colorterm: Option<&str>) -> (r: bool)
    ensures
        r == truecolor_terminal(term_program, colorterm),
{
    if let Some(p) = term_program {
        if str_equal(p, "Apple_Terminal") {
            return false;
        }
    }
    let mut by_colorterm = false;
    if let Some(v) = colorterm {
        let tc = chars_of("truecolor");
        let b24 = chars_of("24bit");
        proof {
            reveal_strlit("truecolor");
            reveal_strlit("24bit");
            assert(lower_ascii_text(tc@));
            assert(lower_ascii_text(b24@));
        }
        let vs = chars_of(v);
        by_colorterm = contains_folded_chars(&vs, &tc) || contains_folded_chars(&vs, &b24);
    }
    if by_colorterm {
        return true;
    }
    match term_program {
        Some(p) => str_equal(p, "iTerm.app") || str_equal(p, "WezTerm") || str_equal(p, "vscode")
            || str_equal(p, "Hyper") || str_equal(p, "kitty") || str_equal(p, "ghostty"),
        None => false,
    }
}

} // verus!
