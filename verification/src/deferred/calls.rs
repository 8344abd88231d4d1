//! The record of a task's waiting call.

use vstd::prelude::*;

verus! {

/// A handle that an application holds.
#[derive(Clone, Copy, Debug, PartialEq, Eq, Structural)]
pub struct ApplicationHandle {
    /// Handle value.
    pub value: u64,
    /// Interface behind it.
    pub interface: u32,
}

/// Whether `i` is the first handle with a value.
pub open spec fn first_handle(handles: Seq<ApplicationHandle>, value: u64, i: int) -> bool {
    &&& 0 <= i < handles.len()
    &&& handles[i].value == value
    &&& forall|k: int| 0 <= k < i ==> (#[trigger] handles[k]).value != value
}

/// The interface behind the first handle with a value.
pub fn command_handle_interface(handles: &Vec<ApplicationHandle>, value: u64) -> (interface: Option<
    u32,
>)
    ensures
        match interface {
            Some(found) => exists|i: int| #[trigger]
                first_handle(handles@, value, i) && found == handles@[i].interface,
            None => forall|k: int| 0 <= k < handles@.len() ==> (#[trigger] handles@[k]).value
                != value,
        },
{
    let mut i: usize = 0;
    while i < handles.len()
        invariant
            i <= handles@.len(),
            forall|k: int| 0 <= k < i ==> (#[trigger] handles@[k]).value != value,
        decreases handles@.len() - i,
    {
        if handles[i].value == value {
            assert(first_handle(handles@, value, i as int));
            return Some(handles[i].interface);
        }
        i = i + 1;
    }
    None
}

/// A copy of a reply.
pub fn owned_reply_payload(bytes: &[u8]) -> (payload: Vec<u8>)
    ensures
        payload@ == bytes@,
{
    let mut payload: Vec<u8> = Vec::new();
    crate::bytes::append_bytes(&mut payload, bytes);
    assert(payload@ =~= bytes@);
    payload
}

/// The waiting call of one task: at most one.
#[derive(Debug)]
pub struct SuspendedCalls<T> {
    slot: Option<(u64, T)>,
    high_water: u8,
}

impl<T> View for SuspendedCalls<T> {
    type V = Option<(u64, T)>;

    closed spec fn view(&self) -> Option<(u64, T)> {
        self.slot
    }
}

impl<T> SuspendedCalls<T> {
    /// Most calls that ever waited at once.
    pub closed spec fn peak(self) -> int {
        self.high_water as int
    }

    #[verifier::type_invariant]
    spec fn is_bounded(self) -> bool {
        self.high_water <= 1
    }

    /// No waiting call.
    pub fn new() -> (calls: Self)
        ensures
            calls@ is None,
            calls.peak() == 0,
    {
        SuspendedCalls { slot: None, high_water: 0 }
    }

    /// Park a call; hands it back where another one waits.
    pub fn insert(&mut self, operation: u64, call: T) -> (inserted: Result<(), T>)
        ensures
            match inserted {
                Ok(()) => old(self)@ is None && final(self)@ == Some((operation, call))
                    && final(self).peak() == 1,
                Err(back) => old(self)@ is Some && back == call && final(self)@ == old(self)@
                    && final(self).peak() == old(self).peak(),
            },
    {
        proof {
            use_type_invariant(&*self);
        }
        if self.slot.is_some() {
            return Err(call);
        }
        self.slot = Some((operation, call));
        self.high_water = 1;
        Ok(())
    }

    /// The waiting call of an operation.
    pub fn get(&self, operation: u64) -> (call: Option<&T>)
        ensures
            match call {
                Some(c) => self@ == Some((operation, *c)),
                None => self@ matches Some(held) ==> held.0 != operation,
            },
    {
        match &self.slot {
            Some((owner, call)) => if *owner == operation {
                Some(call)
            } else {
                None
            },
            None => None,
        }
    }

    /// Take the waiting call of an operation out.
    pub fn take(&mut self, operation: u64) -> (call: Option<T>)
        ensures
            match call {
                Some(c) => old(self)@ == Some((operation, c)) && final(self)@ is None,
                None => (old(self)@ matches Some(held) ==> held.0 != operation) && final(self)@
                    == old(self)@,
            },
            final(self).peak() == old(self).peak(),
    {
        proof {
            use_type_invariant(&*self);
        }
        let mut slot = None;
        std::mem::swap(&mut slot, &mut self.slot);
        match slot {
            Some((owner, call)) => {
                if owner == operation {
                    return Some(call);
                }
                self.slot = Some((owner, call));
                None
            },
            None => None,
        }
    }

    /// Drop the waiting call, if there is one.
    pub fn clear(&mut self)
        ensures
            final(self)@ is None,
            final(self).peak() == old(self).peak(),
    {
        proof {
            use_type_invariant(&*self);
        }
        self.slot = None;
    }

    /// Whether no call waits.
    pub fn is_empty(&self) -> (empty: bool)
        ensures
            empty == (self@ is None),
    {
        self.slot.is_none()
    }

    /// Whether at most one call ever waited: always.
    pub fn respected_bounds(&self) -> (respected: bool)
        ensures
            respected,
            self.peak() <= 1,
    {
        proof {
            use_type_invariant(self);
        }
        self.high_water <= 1
    }
}

/// Totals of pending calls and waits.
#[derive(Clone, Copy, Debug, PartialEq, Eq, Structural)]
pub struct WaitTotals {
    /// Pending calls.
    pub pending: u64,
    /// Bytes kept for pending calls.
    pub retained_bytes: u64,
    /// Registered waits.
    pub waits: u64,
    /// Most pending calls at once.
    pub pending_peak: u64,
    /// Most waits at once.
    pub waits_peak: u64,
}

/// Whether nothing waits and nothing is kept.
pub fn nothing_pending<T>(totals: WaitTotals, calls: &SuspendedCalls<T>) -> (empty: bool)
    ensures
        empty == (totals.pending == 0 && totals.retained_bytes == 0 && totals.waits == 0
            && calls@ is None),
{
    totals.pending == 0 && totals.retained_bytes == 0 && totals.waits == 0 && calls.is_empty()
}

/// Whether at most one call ever waited, by every count.
pub fn bounds_respected<T>(totals: WaitTotals, calls: &SuspendedCalls<T>) -> (respected: bool)
    ensures
        respected == (totals.pending_peak <= 1 && totals.waits_peak <= 1 && calls.peak() <= 1),
{
    totals.pending_peak <= 1 && totals.waits_peak <= 1 && calls.respected_bounds()
}

/// Give up what a task waits for. `waits_cancelled` and `calls_torn_down` say
/// whether its registered waits and its pending calls could be given up, in
/// this order; only after both does the parked call go too.
pub fn revoke_owner<T>(
    calls: &mut SuspendedCalls<T>,
    waits_cancelled: bool,
    calls_torn_down: bool,
) -> (revoked: bool)
    ensures
        revoked == (waits_cancelled && calls_torn_down),
        revoked ==> final(calls)@ is None,
        !revoked ==> final(calls)@ == old(calls)@,
        final(calls).peak() == old(calls).peak(),
{
    if !waits_cancelled || !calls_torn_down {
        return false;
    }
    calls.clear();
    true
}

} // verus!
