//! Validated server resource and lifecycle bounds.

use vstd::prelude::*;
use crate::text::concat;

verus! {

/// Sanitized configuration validation failure.
#[derive(Debug, Clone, Copy, PartialEq, Eq)]
pub struct LimitError {
    /// The invalid field, without its value.
    pub field: &'static str,
}

impl LimitError {
    /// Returns the invalid field without echoing its value.
    pub fn field(self) -> (field: &'static str)
        ensures
            field@ == self.field@,
    {
        self.field
    }

    /// Stable description.
    pub fn message(self) -> (message: String)
        ensures
            message@ == self.field@ + " is outside the supported bound"@,
    {
        concat(self.field, " is outside the supported bound")
    }
}

/// A span of time.
#[derive(Debug, Clone, Copy, PartialEq, Eq, Structural)]
pub struct Timeout {
    /// Its length in nanoseconds.
    pub nanoseconds: u128,
}

impl Timeout {
    /// A span of so many milliseconds.
    pub fn from_millis(milliseconds: u64) -> (timeout: Self)
        ensures
            timeout.nanoseconds == milliseconds * 1_000_000,
    {
        Timeout { nanoseconds: milliseconds as u128 * 1_000_000 }
    }

    /// Its whole milliseconds.
    pub fn as_millis(self) -> (milliseconds: u128)
        ensures
            milliseconds == self.nanoseconds / 1_000_000,
    {
        self.nanoseconds / 1_000_000
    }
}

/// Validated server resource and lifecycle bounds.
#[derive(Debug, Clone, Copy, PartialEq, Eq)]
pub struct ServerLimits {
    max_request_bytes: usize,
    queue_capacity: usize,
    max_concurrent_requests: usize,
    request_timeout: Timeout,
    shutdown_timeout: Timeout,
}

/// The bounds as plain numbers.
pub struct LimitValues {
    /// Maximum encoded request size.
    pub request_bytes: nat,
    /// Maximum queued operations.
    pub queue: nat,
    /// Maximum concurrently executing operations.
    pub concurrent: nat,
    /// Maximum request lifetime in nanoseconds.
    pub request_ns: nat,
    /// Maximum graceful shutdown duration in nanoseconds.
    pub shutdown_ns: nat,
}

/// Largest encoded request accepted by the generic boundary (one GiB).
pub const MAX_REQUEST_BYTES: usize = 1_073_741_824;

/// Largest queue supported by the generic admission primitives.
pub const MAX_QUEUE_CAPACITY: usize = 1_000_000;

/// Largest concurrency supported by the generic admission primitives.
pub const MAX_CONCURRENT_REQUESTS: usize = 1_000_000;

/// Longest timeout in nanoseconds: one day.
pub const MAX_TIMEOUT_NS: u128 = 86_400_000_000_000;

impl LimitValues {
    /// The first field outside its bound, if there is one.
    pub open spec fn invalid_field(self) -> Option<Seq<char>> {
        if !(1 <= self.request_bytes <= MAX_REQUEST_BYTES) {
            Some("max_request_bytes"@)
        } else if !(1 <= self.queue <= MAX_QUEUE_CAPACITY) {
            Some("queue_capacity"@)
        } else if !(1 <= self.concurrent <= MAX_CONCURRENT_REQUESTS) {
            Some("max_concurrent_requests"@)
        } else if !(1 <= self.request_ns <= MAX_TIMEOUT_NS) {
            Some("request_timeout"@)
        } else if !(1 <= self.shutdown_ns <= MAX_TIMEOUT_NS) {
            Some("shutdown_timeout"@)
        } else {
            None
        }
    }
}

impl ServerLimits {
    #[verifier::type_invariant]
    spec fn well_formed(self) -> bool {
        self.values().invalid_field() is None
    }

    /// The bounds as plain numbers.
    pub closed spec fn values(self) -> LimitValues {
        LimitValues {
            request_bytes: self.max_request_bytes as nat,
            queue: self.queue_capacity as nat,
            concurrent: self.max_concurrent_requests as nat,
            request_ns: self.request_timeout.nanoseconds as nat,
            shutdown_ns: self.shutdown_timeout.nanoseconds as nat,
        }
    }

    /// Builds a fully bounded limit set.
    pub fn new(
        max_request_bytes: usize,
        queue_capacity: usize,
        max_concurrent_requests: usize,
        request_timeout: Timeout,
        shutdown_timeout: Timeout,
    ) -> (r: Result<Self, LimitError>)
        ensures
            ({
                let values = LimitValues {
                    request_bytes: max_request_bytes as nat,
                    queue: queue_capacity as nat,
                    concurrent: max_concurrent_requests as nat,
                    request_ns: request_timeout.nanoseconds as nat,
                    shutdown_ns: shutdown_timeout.nanoseconds as nat,
                };
                match r {
                    Ok(limits) => values.invalid_field() is None && limits.values() == values,
                    Err(e) => values.invalid_field() == Some(e.field@),
                }
            }),
    {
        if max_request_bytes == 0 || max_request_bytes > MAX_REQUEST_BYTES {
            return Err(LimitError { field: "max_request_bytes" });
        }
        if queue_capacity == 0 || queue_capacity > MAX_QUEUE_CAPACITY {
            return Err(LimitError { field: "queue_capacity" });
        }
        if max_concurrent_requests == 0 || max_concurrent_requests > MAX_CONCURRENT_REQUESTS {
            return Err(LimitError { field: "max_concurrent_requests" });
        }
        if request_timeout.nanoseconds == 0 || request_timeout.nanoseconds > MAX_TIMEOUT_NS {
            return Err(LimitError { field: "request_timeout" });
        }
        if shutdown_timeout.nanoseconds == 0 || shutdown_timeout.nanoseconds > MAX_TIMEOUT_NS {
            return Err(LimitError { field: "shutdown_timeout" });
        }
        Ok(
            ServerLimits {
                max_request_bytes,
                queue_capacity,
                max_concurrent_requests,
                request_timeout,
                shutdown_timeout,
            },
        )
    }

    /// Maximum encoded request size.
    pub fn max_request_bytes(self) -> (r: usize)
        ensures
            r == self.values().request_bytes,
            1 <= r <= MAX_REQUEST_BYTES,
    {
        proof {
            use_type_invariant(self);
        }
        self.max_request_bytes
    }

    /// Maximum queued operations.
    pub fn queue_capacity(self) -> (r: usize)
        ensures
            r == self.values().queue,
            1 <= r <= MAX_QUEUE_CAPACITY,
    {
        proof {
            use_type_invariant(self);
        }
        self.queue_capacity
    }

    /// Maximum concurrently executing operations.
    pub fn max_concurrent_requests(self) -> (r: usize)
        ensures
            r == self.values().concurrent,
            1 <= r <= MAX_CONCURRENT_REQUESTS,
    {
        proof {
            use_type_invariant(self);
        }
        self.max_concurrent_requests
    }

    /// Maximum request lifetime.
    pub fn request_timeout(self) -> (r: Timeout)
        ensures
            r.nanoseconds == self.values().request_ns,
            1 <= r.nanoseconds <= MAX_TIMEOUT_NS,
    {
        proof {
            use_type_invariant(self);
        }
        self.request_timeout
    }

    /// Maximum graceful shutdown duration.
    pub fn shutdown_timeout(self) -> (r: Timeout)
        ensures
            r.nanoseconds == self.values().shutdown_ns,
            1 <= r.nanoseconds <= MAX_TIMEOUT_NS,
    {
        proof {
            use_type_invariant(self);
        }
        self.shutdown_timeout
    }
}

impl Default for ServerLimits {
    fn default() -> (limits: Self)
        ensures
            limits.values() == (LimitValues {
                request_bytes: 1_048_576,
                queue: 128,
                concurrent: 8,
                request_ns: 30_000_000_000,
                shutdown_ns: 10_000_000_000,
            }),
    {
        ServerLimits {
            max_request_bytes: 1_048_576,
            queue_capacity: 128,
            max_concurrent_requests: 8,
            request_timeout: Timeout { nanoseconds: 30_000_000_000 },
            shutdown_timeout: Timeout { nanoseconds: 10_000_000_000 },
        }
    }
}

/// Limits are accepted exactly between one and their bound: a request of one GiB, a million waiting
/// and a million running requests, and a day. The first one outside, in this order, is named.
pub proof fn limits_are_bounded(values: LimitValues)
    ensures
        values.invalid_field() is None <==> {
            &&& 0 < values.request_bytes <= 1_073_741_824
            &&& 0 < values.queue <= 1_000_000
            &&& 0 < values.concurrent <= 1_000_000
            &&& 0 < values.request_ns <= 86_400 * 1_000_000_000
            &&& 0 < values.shutdown_ns <= 86_400 * 1_000_000_000
        },
        values.request_bytes == 0 ==> values.invalid_field() == Some("max_request_bytes"@),
        0 < values.request_bytes <= 1_073_741_824 && values.queue == 0 ==> values.invalid_field()
            == Some("queue_capacity"@),
        values.shutdown_ns == 0 && (LimitValues { shutdown_ns: 1, ..values }).invalid_field() is None
            ==> values.invalid_field() == Some("shutdown_timeout"@),
        values.request_ns == 0 && (LimitValues { request_ns: 1, ..values }).invalid_field() is None
            ==> values.invalid_field() == Some("request_timeout"@),
        values.concurrent == 0 && (LimitValues { concurrent: 1, ..values }).invalid_field() is None
            ==> values.invalid_field() == Some("max_concurrent_requests"@),
{
}

/// A span of milliseconds keeps its length: whole milliseconds come back, and parts are dropped.
pub proof fn milliseconds_come_back(
    milliseconds: u64,
    timeout: Timeout,
    whole: u128,
)
    requires
        call_ensures(Timeout::from_millis, (milliseconds,), timeout),
        call_ensures(Timeout::as_millis, (timeout,), whole),
    ensures
        whole == milliseconds,
        timeout.nanoseconds == milliseconds * 1_000_000,
{
    assert((milliseconds * 1_000_000) / 1_000_000 == milliseconds as int);
}

/// Limits that are accepted hold what was asked for, and each is read back as it was given.
pub proof fn accepted_limits_read_back(
    bytes: usize,
    queue: usize,
    concurrent: usize,
    request: Timeout,
    shutdown: Timeout,
    made: Result<ServerLimits, LimitError>,
    read_bytes: usize,
    read_queue: usize,
    read_concurrent: usize,
    read_request: Timeout,
    read_shutdown: Timeout,
)
    requires
        call_ensures(ServerLimits::new, (bytes, queue, concurrent, request, shutdown), made),
        made is Ok,
        call_ensures(ServerLimits::max_request_bytes, (made->Ok_0,), read_bytes),
        call_ensures(ServerLimits::queue_capacity, (made->Ok_0,), read_queue),
        call_ensures(ServerLimits::max_concurrent_requests, (made->Ok_0,), read_concurrent),
        call_ensures(ServerLimits::request_timeout, (made->Ok_0,), read_request),
        call_ensures(ServerLimits::shutdown_timeout, (made->Ok_0,), read_shutdown),
    ensures
        read_bytes == bytes,
        read_queue == queue,
        read_concurrent == concurrent,
        read_request == request,
        read_shutdown == shutdown,
{
}

}
