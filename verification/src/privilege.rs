//! Administrator elevation and Full Disk Access decisions.
//!
//! Whether the process runs as root, and what each protected location answers
//! when probed, are read by the application; the decisions made from those
//! answers live here.
use vstd::prelude::*;

verus! {

#[derive(Debug, Clone, Copy, PartialEq, Eq, Structural)]
pub struct PrivilegeInfo {
    pub is_root: bool,
    /// Running without root: some system/other-user items are hidden.
    pub limited: bool,
    pub full_disk_access: bool,
}

/// The privilege summary for a process that is (or is not) root.
pub fn privilege_info(is_root: bool, full_disk_access: bool) -> (r: PrivilegeInfo)
    ensures
        r.is_root == is_root,
        r.limited == !is_root,
        r.full_disk_access == full_disk_access,
{
    PrivilegeInfo { is_root, limited: !is_root, full_disk_access }
}

/// Whether to re-launch through `sudo`: only when not already root, elevation
/// is allowed, there is a terminal to prompt on and `sudo` is installed.
pub fn should_elevate(is_root: bool, auto_elevate: bool, can_prompt: bool, has_sudo: bool) -> (r: bool)
    ensures
        r == (!is_root && auto_elevate && can_prompt && has_sudo),
{
    !is_root && auto_elevate && can_prompt && has_sudo
}

/// The first conclusive probe answer, or `true` when every probe was
/// inconclusive.
pub open spec fn fda_from(probes: Seq<Option<bool>>) -> bool
    decreases probes.len(),
{
    if probes.len() == 0 {
        true
    } else {
        match probes[0] {
            Some(b) => b,
            None => fda_from(probes.drop_first()),
        }
    }
}

/// Whether we can read TCC-protected locations, given what probing each
/// candidate answered in order (`Some(true)` readable, `Some(false)`
/// permission denied, `None` missing or inconclusive). The first conclusive
/// answer decides; with none, access is assumed.
pub fn has_full_disk_access(probes: &Vec<Option<bool>>) -> (r: bool)
    ensures
        r == fda_from(probes@),
{
    let mut i: usize = 0;
    assert(probes@.skip(0) == probes@);
    while i < probes.len()
        invariant
            i <= probes@.len(),
            fda_from(probes@) == fda_from(probes@.skip(i as int)),
        decreases probes@.len() - i,
    {
        assert(probes@.skip(i as int)[0] == probes@[i as int]);
        assert(probes@.skip(i as int).drop_first() == probes@.skip(i + 1));
        match probes[i] {
            Some(b) => {
                return b;
            },
            None => {},
        }
        i = i + 1;
    }
    true
}

} // verus!
