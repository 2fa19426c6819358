//! Request identity and cooperative stop rules.

use vstd::prelude::*;

verus! {

/// Non-zero process-local request identifier.
#[derive(Debug, Clone, Copy, PartialEq, Eq, Hash)]
pub struct RequestId {
    value: u64,
}

impl RequestId {
    /// The numeric identifier.
    pub closed spec fn number(self) -> u64 {
        self.value
    }

    /// Returns the numeric identifier.
    pub fn get(self) -> (r: u64)
        ensures
            r == self.number(),
    {
        self.value
    }
}

/// The process-local request identifier space has been exhausted.
#[derive(Debug, Clone, Copy, PartialEq, Eq)]
pub struct RequestIdExhausted;

impl RequestIdExhausted {
    /// Stable description.
    pub fn message(self) -> (message: &'static str)
        ensures
            message@ == "the process request identifier space is exhausted"@,
    {
        "the process request identifier space is exhausted"
    }
}

/// The identifier after the last one issued, if there is one left.
pub open spec fn following(last: u64) -> Option<u64> {
    if last < u64::MAX {
        Some((last + 1) as u64)
    } else {
        None
    }
}

/// Monotonic request-id source.
#[derive(Debug)]
pub struct RequestIdSource {
    issued: u64,
}

impl RequestIdSource {
    /// The last identifier issued; zero before the first.
    pub closed spec fn last(self) -> u64 {
        self.issued
    }

    /// A source that has issued the identifiers up to `issued`.
    pub fn after(issued: u64) -> (source: Self)
        ensures
            source.last() == issued,
    {
        RequestIdSource { issued }
    }

    /// Returns the next non-zero identifier without ever wrapping or repeating: each is one more
    /// than the last.
    pub fn next(&mut self) -> (r: Result<RequestId, RequestIdExhausted>)
        ensures
            r is Ok <==> old(self).last() < u64::MAX,
            match r {
                Ok(id) => {
                    &&& id.number() == old(self).last() + 1
                    &&& final(self).last() == id.number()
                },
                Err(_) => *final(self) == *old(self),
            },
            following(old(self).last()) == match r {
                Ok(id) => Some(id.number()),
                Err(_) => None,
            },
    {
        if self.issued == u64::MAX {
            return Err(RequestIdExhausted);
        }
        self.issued += 1;
        Ok(RequestId { value: self.issued })
    }
}

impl Default for RequestIdSource {
    fn default() -> (source: Self)
        ensures
            source.last() == 0,
    {
        RequestIdSource { issued: 0 }
    }
}

/// Reason a request must stop before producing a public result.
#[derive(Debug, Clone, Copy, PartialEq, Eq, Structural)]
pub enum RequestStop {
    /// Caller or server cancellation won.
    Cancelled,
    /// The request deadline elapsed.
    DeadlineExceeded,
}

/// What a request's stop controls show at one moment.
#[derive(Debug, Clone, Copy, PartialEq, Eq)]
pub struct RequestSignals {
    /// Whether the caller or the server cancelled the request.
    pub cancelled: bool,
    /// Whether nothing remains of its deadline.
    pub expired: bool,
}

impl RequestSignals {
    /// Why the request must stop, if it must: cancellation wins over an elapsed deadline.
    pub open spec fn stop(self) -> Option<RequestStop> {
        if self.cancelled {
            Some(RequestStop::Cancelled)
        } else if self.expired {
            Some(RequestStop::DeadlineExceeded)
        } else {
            None
        }
    }

    /// Why the request must stop, if it must.
    pub fn stop_reason(self) -> (r: Option<RequestStop>)
        ensures
            r == self.stop(),
    {
        if self.cancelled {
            Some(RequestStop::Cancelled)
        } else if self.expired {
            Some(RequestStop::DeadlineExceeded)
        } else {
            None
        }
    }
}

/// A request goes on exactly while it is neither cancelled nor expired. One that was cancelled
/// stops as cancelled, whatever its deadline; the deadline is the reason only where nobody
/// cancelled.
pub proof fn cancellation_wins_over_deadlines(signals: RequestSignals)
    ensures
        signals.stop() is None <==> !signals.cancelled && !signals.expired,
        signals.stop() == Some(RequestStop::Cancelled) <==> signals.cancelled,
        signals.stop() == Some(RequestStop::DeadlineExceeded) <==> signals.expired
            && !signals.cancelled,
{
}

/// The identifier after `count` more were issued, if there were so many.
pub open spec fn issued_after(last: u64, count: nat) -> Option<u64>
    decreases count,
{
    if count == 0 {
        Some(last)
    } else {
        match issued_after(last, (count - 1) as nat) {
            Some(before) => following(before),
            None => None,
        }
    }
}

/// Identifiers count up one by one, never wrap, and never repeat: the one after `count` more is
/// greater by `count`, and there is none left exactly where that would not fit.
pub proof fn identifiers_never_repeat(last: u64, count: nat)
    ensures
        issued_after(last, count) is Some <==> last + count <= u64::MAX,
        issued_after(last, count) matches Some(id) ==> id == last + count,
        following(0) == Some(1u64),
        following(last) != Some(0u64),
    decreases count,
{
    if count > 0 {
        identifiers_never_repeat(last, (count - 1) as nat);
    }
}

}
