//! Waiting on status flags: each poll either decides the wait or lets it go on.
use vstd::prelude::*;

use crate::registers::{added, extends, Event, Reg, Registers};
use crate::status::{classify, status_is_error, transport_error, Status, TransportError, STATUS_ALL};
use crate::usdhc::{is_read_of, value_of, Usdhc};

verus! {

/// What one read of the interrupt-status register decides for a wait on
/// `flags`: an error ends it with the classified error, one of the flags ends
/// it with success, anything else lets it go on.
pub open spec fn wait_outcome(raw: u32, flags: u32) -> Option<Result<(), TransportError>> {
    let s = raw & STATUS_ALL;
    if status_is_error(s) {
        Some(Err(classify(s)))
    } else if s & flags != 0 {
        Some(Ok(()))
    } else {
        None
    }
}

/// `t` is a wait on the status `flags` with at most `limit` reads that ended
/// with `r`: reads of the interrupt status, each deciding nothing but the
/// last; on success the flags are then cleared. It ends with
/// [`TransportError::TimedOut`] only after `limit` undecided reads.
#[verifier::opaque]
pub open spec fn is_wait(t: Seq<Event>, flags: u32, limit: u64, r: Result<(), TransportError>) -> bool {
    let n: int = if r is Ok { t.len() - 1 } else { t.len() as int };
    &&& forall|i: int| 0 <= i < n ==> is_read_of(#[trigger] t[i], Reg::IntStatus)
    &&& forall|i: int| 0 <= i < n - 1 ==> wait_outcome(value_of(#[trigger] t[i]), flags) is None
    &&& if r == Err::<(), TransportError>(TransportError::TimedOut) {
        &&& n == limit
        &&& n > 0 ==> wait_outcome(value_of(t[n - 1]), flags) is None
    } else {
        &&& 1 <= n <= limit
        &&& wait_outcome(value_of(t[n - 1]), flags) == Some(r)
    }
    &&& r is Ok ==> t.last() == Event::Write(Reg::IntStatus, flags)
}

impl<R: Registers> Usdhc<R> {
    /// Wait until one of `flags` is set in the status, then clear them; any
    /// error flag seen first ends the wait with its classified error.
    pub fn wait_for(&mut self, flags: Status) -> (r: Result<(), TransportError>)
        ensures
            extends(old(self).history(), final(self).history()),
            is_wait(added(old(self).history(), final(self).history()), flags@,
                old(self).poll_limit(), r),
            final(self).poll_limit() == old(self).poll_limit(),
    {
        reveal(is_wait);
        let ghost start = self.history();
        let mut n: u64 = 0;
        let limit = self.max_polls();
        while n < limit
            invariant
                n <= limit,
                limit == old(self).poll_limit(),
                self.poll_limit() == limit,
                start == old(self).history(),
                extends(start, self.history()),
                added(start, self.history()).len() == n,
                forall|i: int| 0 <= i < n ==> is_read_of(#[trigger] added(start, self.history())[i], Reg::IntStatus),
                forall|i: int| 0 <= i < n ==> wait_outcome(value_of(#[trigger] added(start, self.history())[i]), flags@) is None,
            decreases limit - n,
        {
            let ghost before = self.history();
            let status = self.status();
            n = n + 1;
            proof {
                let t = added(start, self.history());
                assert(t =~= added(start, before).push(self.history().last()));
            }
            if status.is_error() {
                proof {
                    reveal(is_wait);
                }
                return Err(transport_error(status));
            }
            if status.intersects(flags) {
                let ghost mid = self.history();
                self.clear_status(flags);
                proof {
                    reveal(is_wait);
                    let t = added(start, self.history());
                    assert(t =~= added(start, mid).push(Event::Write(Reg::IntStatus, flags@)));
                }
                return Ok(());
            }
        }
        proof {
            reveal(is_wait);
        }
        Err(TransportError::TimedOut)
    }
}

} // verus!
