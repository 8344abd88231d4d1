//! Giving frames of a process back, one range after the other.

use crate::memory::native::{uncharged, NativeProcess};
use crate::memory::pages::PageRange;
use crate::memory::private::space::SystemMemory;
use vstd::prelude::*;

verus! {

/// What giving frames back does next.
#[derive(Clone, Copy, Debug, PartialEq, Eq, Structural)]
pub enum ReleaseStep {
    /// Zero a range.
    Zero(PageRange),
    /// Give it back.
    Free(PageRange),
    /// Every range is free.
    Finished,
}

/// Ranges that are given back.
#[derive(Debug)]
pub struct FrameRelease {
    /// The ranges, in order.
    pub ranges: Vec<PageRange>,
    /// How many of them are free.
    pub freed: usize,
    /// Whether the next one is zeroed.
    pub zeroed: bool,
    /// The pages and metadata that the system has charged for them, if it has.
    pub charge: Option<(u64, u64)>,
}

impl FrameRelease {
    /// What is done next.
    pub open spec fn stands(self) -> ReleaseStep {
        if self.freed >= self.ranges@.len() {
            ReleaseStep::Finished
        } else if self.zeroed {
            ReleaseStep::Free(self.ranges@[self.freed as int])
        } else {
            ReleaseStep::Zero(self.ranges@[self.freed as int])
        }
    }

    /// The release after a step.
    pub open spec fn advanced(self) -> FrameRelease {
        if self.zeroed {
            FrameRelease { freed: (self.freed + 1) as usize, zeroed: false, ..self }
        } else {
            FrameRelease { zeroed: true, ..self }
        }
    }

    /// The release of some ranges before its first step.
    pub open spec fn of(ranges: Vec<PageRange>, charge: Option<(u64, u64)>) -> FrameRelease {
        FrameRelease { ranges, freed: 0, zeroed: false, charge }
    }

    /// Whether there is nothing to give back.
    pub open spec fn is_empty(self) -> bool {
        self.ranges@.len() == 0 && self.freed == 0 && !self.zeroed && self.charge is None
    }

    /// Steps that are left.
    pub open spec fn steps_left(self) -> int {
        2 * (self.ranges@.len() - self.freed) - (if self.zeroed {
            1int
        } else {
            0
        })
    }

    /// Start giving ranges back.
    pub fn start(ranges: Vec<PageRange>, charge: Option<(u64, u64)>) -> (release: Self)
        ensures
            release == FrameRelease::of(ranges, charge),
    {
        FrameRelease { ranges, freed: 0, zeroed: false, charge }
    }

    /// What is done next.
    pub fn current(&self) -> (step: ReleaseStep)
        ensures
            step == self.stands(),
    {
        if self.freed >= self.ranges.len() {
            ReleaseStep::Finished
        } else if self.zeroed {
            ReleaseStep::Free(self.ranges[self.freed])
        } else {
            ReleaseStep::Zero(self.ranges[self.freed])
        }
    }

    /// A step was taken.
    pub fn advance(&mut self)
        requires
            old(self).stands() != ReleaseStep::Finished,
        ensures
            *final(self) == old(self).advanced(),
    {
        let count: usize = self.ranges.len();
        if self.zeroed {
            self.freed = self.freed + 1;
            self.zeroed = false;
        } else {
            self.zeroed = true;
        }
    }
}

/// Whether a charge can be taken out of the totals.
pub open spec fn refundable(charge: Option<(u64, u64)>, system: SystemMemory) -> bool {
    match charge {
        Some((pages, metadata)) => pages <= system.application_committed_pages && metadata
            <= system.private_metadata_bytes,
        None => true,
    }
}

/// The totals without a charge.
pub open spec fn refunded(charge: Option<(u64, u64)>, system: SystemMemory) -> SystemMemory {
    match charge {
        Some((pages, metadata)) => uncharged(system, pages, metadata),
        None => system,
    }
}

/// The frames are free again: refund the system, and lift the quarantine where
/// its totals hold the charge.
pub fn settle(charge: Option<(u64, u64)>, process: &mut NativeProcess, system: &mut SystemMemory) -> (settled:
    bool)
    ensures
        settled == refundable(charge, *old(system)),
        *final(system) == refunded(charge, *old(system)),
        *final(process) == (if settled {
            NativeProcess { reclamation_failed: false, ..*old(process) }
        } else {
            *old(process)
        }),
{
    match charge {
        Some((pages, metadata)) => process.released(system, pages, metadata),
        None => {
            process.unpublished_released();
            true
        },
    }
}

/// Every range is zeroed before it is freed, and the next one is taken only
/// then. A release that has gone through its ranges is finished.
pub proof fn frames_are_zeroed_before_they_are_freed(release: FrameRelease)
    requires
        release.freed < release.ranges@.len(),
        release.ranges@.len() < usize::MAX,
    ensures
        ({
            let at = release.ranges@[release.freed as int];
            let next = release.advanced();
            &&& !release.zeroed ==> release.stands() == ReleaseStep::Zero(at) && next.stands()
                == ReleaseStep::Free(at)
            &&& release.zeroed && release.freed + 1 < release.ranges@.len() ==> release.stands()
                == ReleaseStep::Free(at) && next.stands() == ReleaseStep::Zero(
                release.ranges@[release.freed + 1],
            )
            &&& release.zeroed && release.freed + 1 == release.ranges@.len() ==> release.stands()
                == ReleaseStep::Free(at) && next.stands() == ReleaseStep::Finished
            &&& next.ranges == release.ranges
            &&& next.charge == release.charge
        }),
{
}

/// What a refund takes from the totals is exactly its charge; without a charge
/// the totals stay. A charge that the totals do not hold is not refundable.
pub proof fn refunds_are_their_charge(pages: u64, metadata: u64, system: SystemMemory)
    ensures
        refunded(None, system) == system,
        refundable(None, system),
        refundable(Some((pages, metadata)), system) <==> system.application_committed_pages
            >= pages && system.private_metadata_bytes >= metadata,
        refundable(Some((pages, metadata)), system) ==> {
            let after = refunded(Some((pages, metadata)), system);
            &&& after.application_committed_pages + pages == system.application_committed_pages
            &&& after.private_metadata_bytes + metadata == system.private_metadata_bytes
            &&& after.system_commit_limit == system.system_commit_limit
            &&& after.minimum_free_pages == system.minimum_free_pages
            &&& after.global_metadata_limit == system.global_metadata_limit
        },
{
}

} // verus!
