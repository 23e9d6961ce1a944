//! Messages that background scan and clean workers send back to the UI.
use vstd::prelude::*;
use crate::model::{Category, ScanItem};

verus! {

/// Messages emitted by background scan/clean workers back to the UI.
#[derive(Debug, Clone)]
pub enum WorkerMsg {
    ScanStarted(Category),
    ScanProgress { category: Category, found: usize, bytes: u64 },
    ScanDone { category: Category, items: Vec<ScanItem> },
    ScanSkipped { category: Category, reason: String },
    /// All categories finished.
    ScanComplete,
    CleanProgress { done: usize, total: usize, freed: u64 },
    CleanDone { freed: u64, failures: Vec<String> },
    /// Docker daemon came up (or failed to) after a start request.
    DockerReady(bool),
    Disk(DiskInfo),
}

/// Size and free space of the startup volume.
#[derive(Debug, Clone, Copy, PartialEq, Eq, Structural)]
pub struct DiskInfo {
    pub total: u64,
    pub free: u64,
}

impl Default for DiskInfo {
    fn default() -> (r: Self)
        ensures
            r.total == 0 && r.free == 0,
    {
        DiskInfo { total: 0, free: 0 }
    }
}

impl DiskInfo {
    /// Used bytes (`total - free`, never below zero).
    pub fn used(&self) -> (r: u64)
        ensures
            r == (if self.total >= self.free {
                self.total - self.free
            } else {
                0
            }),
    {
        if self.total >= self.free {
            self.total - self.free
        } else {
            0
        }
    }

    /// Used share of the disk in whole percent, rounded down (0 when the total
    /// is unknown).
    pub fn used_percent(&self) -> (r: u64)
        ensures
            r == (if self.total == 0 {
                0
            } else {
                (if self.total >= self.free {
                    self.total - self.free
                } else {
                    0
                }) * 100 / (self.total as int)
            }),
    {
        if self.total == 0 {
            return 0;
        }
        let u = self.used() as u128;
        let t = self.total as u128;
        assert(u * 100 <= t * 100) by (nonlinear_arith)
            requires
                u <= t,
        ;
        assert((u * 100) / (t as int) <= 100) by (nonlinear_arith)
            requires
                u <= t,
                t > 0,
        ;
        ((u * 100) / t) as u64
    }
}

} // verus!
