//! Held calls of native threads.

use crate::memory::native::ThreadKey;
use crate::probe::script::Request;
use vstd::prelude::*;

verus! {

/// A held call, or the completion of one.
#[derive(Clone, Copy, Debug, PartialEq, Eq, Structural)]
pub struct HeldCall {
    /// Caller.
    pub caller: ThreadKey,
    /// Request.
    pub request: Request,
}

/// Whether a completion may be published for a held call: both name the same
/// caller and the same request.
pub fn may_publish(held: &HeldCall, completion: &HeldCall) -> (allowed: bool)
    ensures
        allowed == (*held == *completion),
{
    held.caller == completion.caller && held.request == completion.request
}

/// Copy a held request into a buffer of exactly its size; another buffer is
/// left alone.
pub fn copy_handle_request(request: &[u8], output: &mut [u8]) -> (copied: bool)
    ensures
        copied == (request@.len() == old(output)@.len()),
        final(output)@ == if copied {
            request@
        } else {
            old(output)@
        },
{
    if output.len() != request.len() {
        return false;
    }
    let mut i: usize = 0;
    while i < request.len()
        invariant
            i <= request@.len(),
            output@.len() == request@.len(),
            forall|k: int| 0 <= k < i ==> output@[k] == request@[k],
        decreases request@.len() - i,
    {
        output[i] = request[i];
        i = i + 1;
    }
    assert(output@ =~= request@);
    true
}

} // verus!
