//! Control plane and the policy around every workload request.

use vstd::prelude::*;
use vstd::string::*;
use crate::api::{ApiError, ApiFailure};
use crate::health::{HealthRegistry, HealthSnapshot, ProcessState, ReadinessReason};
use crate::limiter::{count_after, count_of, held_after, places_are_bounded, returns_are_held};
use crate::limiter::{Limiter, Place, PlaceEvent};
use crate::limits::{LimitValues, ServerLimits};
use crate::number::{decimal, decimal_round_trip, decimal_text, render_decimal};
use crate::request::{RequestId, RequestIdSource};
use crate::shutdown::{DrainOutcome, GateState, Phase, ShutdownGate, ShutdownToken};

verus! {

/// The answer to a request that was cancelled.
pub open spec fn cancelled() -> ApiFailure {
    ApiFailure { status: 503, code: "cancelled"@, message: "the request was cancelled"@ }
}

/// The answer to a request whose deadline elapsed.
pub open spec fn deadline_exceeded() -> ApiFailure {
    ApiFailure {
        status: 504,
        code: "deadline_exceeded"@,
        message: "the request deadline was exceeded"@,
    }
}

/// The answer to a request that finds no place.
pub open spec fn overloaded() -> ApiFailure {
    ApiFailure { status: 429, code: "overloaded"@, message: "the service is temporarily overloaded"@ }
}

/// The answer to a request that cannot be given an identity.
pub open spec fn internal() -> ApiFailure {
    ApiFailure { status: 500, code: "internal"@, message: "an internal server error occurred"@ }
}

/// The answer to a request whose body is too large.
pub open spec fn too_large() -> ApiFailure {
    ApiFailure {
        status: 413,
        code: "invalid_request"@,
        message: "the request body exceeds the configured limit"@,
    }
}

/// Creates a public failure.
fn public_error(status: u16, code: &'static str, message: &'static str) -> (error: ApiError)
    ensures
        error.failure() == (ApiFailure { status, code: code@, message: message@ }),
{
    ApiError { status, code, message }
}

/// The answer to a request that was cancelled.
fn cancelled_error() -> (error: ApiError)
    ensures
        error.failure() == cancelled(),
{
    public_error(503, "cancelled", "the request was cancelled")
}

/// The answer to a request whose deadline elapsed.
fn deadline_error() -> (error: ApiError)
    ensures
        error.failure() == deadline_exceeded(),
{
    public_error(504, "deadline_exceeded", "the request deadline was exceeded")
}

/// Why a request goes no further.
#[derive(Debug)]
pub struct Refusal {
    /// The answer.
    pub error: ApiError,
    /// Whether the request's own token is cancelled first.
    pub cancel: bool,
    /// `x-request-id`, once the request has an identity.
    pub request_id: Option<String>,
}

/// The header of a request's number.
pub open spec fn id_header(number: u64) -> Option<Seq<char>> {
    Some(decimal_text(number as nat))
}

/// The view of an optional header.
pub open spec fn header_view(header: Option<String>) -> Option<Seq<char>> {
    match header {
        Some(text) => Some(text@),
        None => None,
    }
}

impl Refusal {
    /// Whether a refusal gives this answer, cancels the request or not, and carries this header.
    pub open spec fn is(
        self,
        answer: ApiFailure,
        cancel: bool,
        request_id: Option<Seq<char>>,
    ) -> bool {
        &&& self.error.failure() == answer
        &&& self.cancel == cancel
        &&& header_view(self.request_id) == request_id
    }

    /// A refusal before the request has an identity.
    fn anonymous(error: ApiError) -> (refusal: Self)
        ensures
            refusal.is(error.failure(), false, None),
    {
        Refusal { error, cancel: false, request_id: None }
    }

    /// A refusal of an identified request.
    fn identified(error: ApiError, cancel: bool, id: RequestId) -> (refusal: Self)
        ensures
            refusal.is(error.failure(), cancel, id_header(id.number())),
    {
        Refusal { error, cancel, request_id: Some(render_decimal(id.get())) }
    }
}

/// What reading a request's body came to.
#[derive(Debug, Clone, Copy, PartialEq, Eq, Structural)]
pub enum BodyOutcome {
    /// The server stopped.
    Stopped,
    /// The whole body was read.
    Read,
    /// The body exceeds its limit or failed.
    Failed,
    /// The deadline elapsed.
    TimedOut,
}

/// What waiting for an execution place came to.
#[derive(Debug, Clone, Copy, PartialEq, Eq, Structural)]
pub enum ExecutionOutcome {
    /// The server stopped.
    Stopped,
    /// A place was taken.
    Acquired,
    /// There are no places any more.
    Closed,
    /// The deadline elapsed.
    TimedOut,
}

/// What running a request came to.
#[derive(Debug, Clone, Copy, PartialEq, Eq, Structural)]
pub enum RunOutcome {
    /// The server stopped.
    Stopped,
    /// The deadline elapsed.
    TimedOut,
    /// The workload answered.
    Answered,
}

/// A request that was let in before shutdown.
#[derive(Debug)]
pub struct EnteredRequest(());

/// A request that holds an admission place.
#[derive(Debug)]
pub struct PlacedRequest(());

/// A request with an identity.
#[derive(Debug)]
pub struct IdentifiedRequest {
    id: RequestId,
}

/// A request whose body is to be read.
#[derive(Debug)]
pub struct ReadingRequest {
    id: RequestId,
}

/// A request that waits for an execution place.
#[derive(Debug)]
pub struct QueuedRequest {
    id: RequestId,
}

/// A request that runs.
#[derive(Debug)]
pub struct RunningRequest {
    id: RequestId,
}

/// Lets a request in unless shutdown has begun.
pub fn enter(gate: &mut ShutdownGate) -> (r: Result<EnteredRequest, Refusal>)
    ensures
        final(gate).state() == old(gate).state().entered(),
        r is Ok <==> old(gate).state().admits(),
        r matches Err(refusal) ==> refusal.is(cancelled(), false, None),
{
    if gate.try_enter() {
        Ok(EnteredRequest(()))
    } else {
        Err(Refusal::anonymous(cancelled_error()))
    }
}

/// How a request is refused admission when so many are admitted, if it is.
pub open spec fn admission_refusal(admitted: nat, bound: nat) -> Option<ApiFailure> {
    if admitted < bound {
        None
    } else {
        Some(overloaded())
    }
}

impl EnteredRequest {
    /// Takes one of the host's admission places, or is refused where all are taken.
    pub fn place(self, admission: &mut Limiter) -> (r: Result<(PlacedRequest, Place), Refusal>)
        ensures
            final(admission).bound() == old(admission).bound(),
            final(admission).count() == count_after(
                old(admission).count(),
                old(admission).bound(),
                PlaceEvent::Ask,
            ),
            final(admission).count() <= final(admission).bound(),
            match r {
                Ok(_) => admission_refusal(old(admission).count(), old(admission).bound()) is None,
                Err(refusal) => {
                    let answer = admission_refusal(
                        old(admission).count(),
                        old(admission).bound(),
                    );
                    answer is Some && refusal.is(answer->0, false, None)
                },
            },
    {
        match admission.acquire() {
            Some(place) => Ok((PlacedRequest(()), place)),
            None => Err(
                Refusal::anonymous(
                    public_error(429, "overloaded", "the service is temporarily overloaded"),
                ),
            ),
        }
    }
}

impl PlacedRequest {
    /// Gives the request the next identity.
    pub fn identify(self, ids: &mut RequestIdSource) -> (r: Result<IdentifiedRequest, Refusal>)
        ensures
            match r {
                Ok(request) => {
                    &&& old(ids).last() < u64::MAX
                    &&& request.number() == old(ids).last() + 1
                    &&& final(ids).last() == request.number()
                },
                Err(refusal) => {
                    &&& old(ids).last() == u64::MAX
                    &&& *final(ids) == *old(ids)
                    &&& refusal.is(internal(), false, None)
                },
            },
    {
        match ids.next() {
            Ok(id) => Ok(IdentifiedRequest { id }),
            Err(_) => Err(
                Refusal::anonymous(
                    public_error(500, "internal", "an internal server error occurred"),
                ),
            ),
        }
    }
}

impl IdentifiedRequest {
    /// The request's number.
    pub closed spec fn number(self) -> u64 {
        self.id.number()
    }

    /// The request's identity.
    pub fn id(&self) -> (id: RequestId)
        ensures
            id.number() == self.number(),
    {
        self.id
    }

    /// Goes on where the request's deadline could be represented.
    pub fn bound(self, representable: bool) -> (r: Result<ReadingRequest, Refusal>)
        ensures
            r is Ok <==> representable,
            match r {
                Ok(request) => request.number() == self.number(),
                Err(refusal) => refusal.is(internal(), false, id_header(self.number())),
            },
    {
        if representable {
            Ok(ReadingRequest { id: self.id })
        } else {
            Err(
                Refusal::identified(
                    public_error(500, "internal", "an internal server error occurred"),
                    false,
                    self.id,
                ),
            )
        }
    }
}

/// How a body outcome is refused, if it is: the answer, and whether the request is cancelled.
pub open spec fn body_refusal(outcome: BodyOutcome) -> Option<(ApiFailure, bool)> {
    match outcome {
        BodyOutcome::Stopped => Some((cancelled(), true)),
        BodyOutcome::Read => None,
        BodyOutcome::Failed => Some((too_large(), false)),
        BodyOutcome::TimedOut => Some((deadline_exceeded(), true)),
    }
}

/// How an execution outcome is refused, if it is; `free` tells whether fewer requests run than may.
pub open spec fn execution_refusal(outcome: ExecutionOutcome, free: bool) -> Option<
    (ApiFailure, bool),
> {
    match outcome {
        ExecutionOutcome::Stopped => Some((cancelled(), true)),
        ExecutionOutcome::Acquired => if free {
            None
        } else {
            Some((cancelled(), false))
        },
        ExecutionOutcome::Closed => Some((cancelled(), false)),
        ExecutionOutcome::TimedOut => Some((deadline_exceeded(), true)),
    }
}

/// What replaces the workload's answer, if anything does.
pub open spec fn run_replacement(outcome: RunOutcome) -> Option<ApiFailure> {
    match outcome {
        RunOutcome::Stopped => Some(cancelled()),
        RunOutcome::TimedOut => Some(deadline_exceeded()),
        RunOutcome::Answered => None,
    }
}

impl ReadingRequest {
    /// The request's number.
    pub closed spec fn number(self) -> u64 {
        self.id.number()
    }

    /// Goes on where the whole body was read in time.
    pub fn body(self, outcome: BodyOutcome) -> (r: Result<QueuedRequest, Refusal>)
        ensures
            match r {
                Ok(request) => body_refusal(outcome) is None && request.number() == self.number(),
                Err(refusal) => {
                    &&& body_refusal(outcome) == Some((refusal.error.failure(), refusal.cancel))
                    &&& header_view(refusal.request_id) == id_header(self.number())
                },
            },
    {
        match outcome {
            BodyOutcome::Read => Ok(QueuedRequest { id: self.id }),
            BodyOutcome::Stopped => Err(Refusal::identified(cancelled_error(), true, self.id)),
            BodyOutcome::Failed => Err(
                Refusal::identified(
                    public_error(
                        413,
                        "invalid_request",
                        "the request body exceeds the configured limit",
                    ),
                    false,
                    self.id,
                ),
            ),
            BodyOutcome::TimedOut => Err(Refusal::identified(deadline_error(), true, self.id)),
        }
    }
}

impl QueuedRequest {
    /// The request's number.
    pub closed spec fn number(self) -> u64 {
        self.id.number()
    }

    /// Runs where the wait for an execution place ended in time and one of the host's places is
    /// taken.
    pub fn execution(self, outcome: ExecutionOutcome, execution: &mut Limiter) -> (r: Result<
        (RunningRequest, Place),
        Refusal,
    >)
        ensures
            final(execution).bound() == old(execution).bound(),
            final(execution).count() == if r is Ok {
                old(execution).count() + 1
            } else {
                old(execution).count()
            },
            r is Ok ==> final(execution).count() <= final(execution).bound(),
            ({
                let refusal = execution_refusal(
                    outcome,
                    old(execution).count() < old(execution).bound(),
                );
                match r {
                    Ok((request, _)) => refusal is None && request.number() == self.number(),
                    Err(e) => {
                        &&& refusal == Some((e.error.failure(), e.cancel))
                        &&& header_view(e.request_id) == id_header(self.number())
                    },
                }
            }),
    {
        match outcome {
            ExecutionOutcome::Acquired => match execution.acquire() {
                Some(place) => Ok((RunningRequest { id: self.id }, place)),
                None => Err(Refusal::identified(cancelled_error(), false, self.id)),
            },
            ExecutionOutcome::Stopped => Err(Refusal::identified(cancelled_error(), true, self.id)),
            ExecutionOutcome::Closed => Err(Refusal::identified(cancelled_error(), false, self.id)),
            ExecutionOutcome::TimedOut => Err(Refusal::identified(deadline_error(), true, self.id)),
        }
    }
}

/// The answer to a request that ran.
#[derive(Debug)]
pub struct Completion {
    /// What replaces the workload's answer, if anything does; the request is then cancelled.
    pub replacement: Option<ApiError>,
    /// `x-request-id`.
    pub request_id: String,
}

impl RunningRequest {
    /// The request's number.
    pub closed spec fn number(self) -> u64 {
        self.id.number()
    }

    /// Ends the request.
    pub fn finish(self, outcome: RunOutcome) -> (completion: Completion)
        ensures
            completion.request_id@ == decimal_text(self.number() as nat),
            match completion.replacement {
                None => run_replacement(outcome) is None,
                Some(error) => run_replacement(outcome) == Some(error.failure()),
            },
    {
        let replacement = match outcome {
            RunOutcome::Stopped => Some(cancelled_error()),
            RunOutcome::TimedOut => Some(deadline_error()),
            RunOutcome::Answered => None,
        };
        Completion { replacement, request_id: render_decimal(self.id.get()) }
    }
}

/// How an answer with this status is reworded, if it is.
pub open spec fn reworded(status: u16) -> Option<ApiFailure> {
    if status == 405 {
        Some(
            ApiFailure {
                status: 405,
                code: "invalid_request"@,
                message: "the request method is not supported"@,
            },
        )
    } else if status == 413 {
        Some(too_large())
    } else {
        None
    }
}

/// A reworded answer.
#[derive(Debug)]
pub struct Reworded {
    /// The answer.
    pub error: ApiError,
    /// `x-request-id`, where the answer had one.
    pub request_id: Option<String>,
}

/// Replaces answers that a framework words itself. What replaces an answer keeps its identity.
pub fn normalize_public_failures(status: u16, request_id: Option<String>) -> (r: Option<Reworded>)
    ensures
        match r {
            Some(answer) => {
                &&& reworded(status) == Some(answer.error.failure())
                &&& header_view(answer.request_id) == header_view(request_id)
            },
            None => reworded(status) is None,
        },
{
    if status == 405 {
        let error = public_error(405, "invalid_request", "the request method is not supported");
        Some(Reworded { error, request_id })
    } else if status == 413 {
        let error = public_error(
            413,
            "invalid_request",
            "the request body exceeds the configured limit",
        );
        Some(Reworded { error, request_id })
    } else {
        None
    }
}

/// The answer to a path that does not exist.
pub fn not_found() -> (error: ApiError)
    ensures
        error.failure() == (ApiFailure {
            status: 404,
            code: "invalid_request"@,
            message: "the requested path does not exist"@,
        }),
{
    public_error(404, "invalid_request", "the requested path does not exist")
}

/// Answer of a health endpoint.
#[derive(Debug, Clone, Copy)]
pub struct HealthBody {
    /// HTTP status.
    pub code: u16,
    /// Status word.
    pub status: &'static str,
    /// Stable reason.
    pub reason: Option<&'static str>,
}

/// Answers whether the process lives.
pub fn live(snapshot: HealthSnapshot) -> (body: HealthBody)
    ensures
        body.code == if snapshot.live {
            200u16
        } else {
            503u16
        },
        body.status@ == if snapshot.live {
            "live"@
        } else {
            "stopped"@
        },
        body.reason is None,
{
    if snapshot.live {
        HealthBody { code: 200, status: "live", reason: None }
    } else {
        HealthBody { code: 503, status: "stopped", reason: None }
    }
}

/// Answers whether the process can serve work.
pub fn ready(snapshot: HealthSnapshot) -> (body: HealthBody)
    ensures
        body.code == if snapshot.ready {
            200u16
        } else {
            503u16
        },
        body.status@ == if snapshot.ready {
            "ready"@
        } else {
            "not_ready"@
        },
        match (body.reason, snapshot.reason) {
            (None, None) => true,
            (Some(reason), Some(found)) => reason@ == found.code(),
            _ => false,
        },
{
    let reason = match snapshot.reason {
        Some(reason) => Some(reason.as_str()),
        None => None,
    };
    if snapshot.ready {
        HealthBody { code: 200, status: "ready", reason }
    } else {
        HealthBody { code: 503, status: "not_ready", reason }
    }
}

/// What the control plane says that the server can do.
#[derive(Debug, Clone, Copy, PartialEq, Eq)]
pub struct Capabilities {
    /// Speech recognition.
    pub speech_to_text: bool,
    /// Speech synthesis.
    pub text_to_speech: bool,
    /// Realtime sessions.
    pub realtime_websocket: bool,
    /// gRPC services.
    pub grpc: bool,
    /// MCP tools.
    pub mcp: bool,
    /// Operation without network access once set up.
    pub offline_after_setup: bool,
}

/// The control plane's own capabilities: it promises nothing on behalf of a workload.
pub fn capabilities() -> (capabilities: Capabilities)
    ensures
        capabilities == (Capabilities {
            speech_to_text: false,
            text_to_speech: false,
            realtime_websocket: false,
            grpc: false,
            mcp: false,
            offline_after_setup: true,
        }),
{
    Capabilities {
        speech_to_text: false,
        text_to_speech: false,
        realtime_websocket: false,
        grpc: false,
        mcp: false,
        offline_after_setup: true,
    }
}

/// A counter after one more request.
pub open spec fn counted(requests: u64) -> u64 {
    if requests == u64::MAX {
        0
    } else {
        (requests + 1) as u64
    }
}

/// Control-plane counters.
#[derive(Debug)]
pub struct Metrics {
    control_requests: u64,
}

impl Metrics {
    /// Control-plane requests so far, modulo the counter's size.
    pub closed spec fn requests(self) -> u64 {
        self.control_requests
    }

    /// Counters at zero.
    pub fn new() -> (metrics: Self)
        ensures
            metrics.requests() == 0,
    {
        Metrics { control_requests: 0 }
    }

    /// Counts one request; the counter starts again after its largest value.
    pub fn increment(&mut self)
        ensures
            final(self).requests() == if old(self).requests() == u64::MAX {
                0
            } else {
                (old(self).requests() + 1) as u64
            },
            final(self).requests() == counted(old(self).requests()),
    {
        self.control_requests = if self.control_requests == u64::MAX {
            0
        } else {
            self.control_requests + 1
        };
    }

    /// Renders the counters as text.
    pub fn render(&self) -> (text: String)
        ensures
            text@ == metrics_head() + decimal_text(self.requests() as nat) + "\n"@,
    {
        let mut text =
            "# HELP impossible_voice_control_requests_total Control-plane HTTP requests.\n# TYPE impossible_voice_control_requests_total counter\nimpossible_voice_control_requests_total ".to_owned();
        let count = render_decimal(self.control_requests);
        text.append(count.as_str());
        text.append("\n");
        text
    }
}

/// What stands before the counter's value.
pub open spec fn metrics_head() -> Seq<char> {
    "# HELP impossible_voice_control_requests_total Control-plane HTTP requests.\n# TYPE impossible_voice_control_requests_total counter\nimpossible_voice_control_requests_total "@
}

/// Server-owned context exposed to a workload extension.
#[derive(Debug)]
pub struct WorkloadContext {
    component: String,
    limits: ServerLimits,
}

impl WorkloadContext {
    /// The workload's component.
    pub closed spec fn name(self) -> Seq<char> {
        self.component@
    }

    /// The host's bounds.
    pub closed spec fn bounds(self) -> ServerLimits {
        self.limits
    }

    /// Publishes aggregate workload readiness.
    pub fn set_ready(&self, health: &mut HealthRegistry, ready: bool)
        ensures
            final(health).state() == old(health).state(),
            final(health).components() == if old(health).components().contains_key(self.name()) {
                old(health).components().insert(self.name(), ready)
            } else {
                old(health).components()
            },
    {
        let _ = health.set_component_ready(self.component.as_str(), ready);
    }

    /// Returns the validated resource and lifecycle bounds applied by the host.
    pub fn limits(&self) -> (limits: ServerLimits)
        ensures
            limits == self.bounds(),
    {
        self.limits
    }

    /// A token that is cancelled once the host has stopped, after admitted work drained or was
    /// forced to stop.
    pub fn shutdown_token(&self) -> (token: ShutdownToken)
        ensures
            forall|state: GateState| #[trigger]
                token.cancelled(Some(state)) == (state.phase is Stopped),
            token.cancelled(None),
    {
        ShutdownToken::new()
    }
}

/// Deliberate placeholder proving the extension seam without choosing a modality.
#[derive(Debug)]
pub struct PlaceholderWorkload;

impl PlaceholderWorkload {
    /// Stable internal component name.
    pub fn component_name(&self) -> (name: &'static str)
        ensures
            name@ == "placeholder"@,
    {
        "placeholder"
    }

    /// The answer of its only route.
    pub fn answer(&self) -> (error: ApiError)
        ensures
            error.failure() == (ApiFailure {
                status: 501,
                code: "not_implemented"@,
                message: "replace PlaceholderWorkload with a service implementation"@,
            }),
    {
        public_error(
            501,
            "not_implemented",
            "replace PlaceholderWorkload with a service implementation",
        )
    }
}

/// State of a server around one workload.
#[derive(Debug)]
pub struct TemplateServer {
    /// Aggregate health.
    pub health: HealthRegistry,
    /// Control-plane counters.
    pub metrics: Metrics,
    /// Request identities.
    pub request_ids: RequestIdSource,
    /// Admission.
    pub gate: ShutdownGate,
    /// The workload's context.
    pub context: WorkloadContext,
    /// Requests that may run at a time.
    pub execution_places: usize,
    /// Requests that run.
    pub execution: Limiter,
    /// Requests that run or wait.
    pub admission: Limiter,
}

impl TemplateServer {
    /// A server with default bounds.
    pub fn new(component: &str) -> (server: Self)
        ensures
            server.context.bounds().values() == (LimitValues {
                request_bytes: 1_048_576,
                queue: 128,
                concurrent: 8,
                request_ns: 30_000_000_000,
                shutdown_ns: 10_000_000_000,
            }),
            server.started(component@),
    {
        TemplateServer::with_limits(component, ServerLimits::default())
    }

    /// A running server whose workload is registered and not ready yet, with no request admitted.
    pub open spec fn started(self, component: Seq<char>) -> bool {
        let values = self.context.bounds().values();
        &&& self.health.state() == ProcessState::Running
        &&& self.health.components() == Map::<Seq<char>, bool>::empty().insert(component, false)
        &&& self.metrics.requests() == 0
        &&& self.request_ids.last() == 0
        &&& self.gate.state() == (GateState { phase: Phase::Accepting, active: 0 })
        &&& self.context.name() == component
        &&& self.execution_places == values.concurrent
        &&& self.execution.bound() == values.concurrent
        &&& self.execution.count() == 0
        &&& self.admission.bound() == values.concurrent + values.queue
        &&& self.admission.count() == 0
    }

    /// A server with an explicit, validated resource and lifecycle policy.
    pub fn with_limits(component: &str, limits: ServerLimits) -> (server: Self)
        ensures
            server.context.bounds() == limits,
            server.started(component@),
    {
        let mut health = HealthRegistry::new();
        health.register_component(component);
        let execution_places: usize = limits.max_concurrent_requests();
        let admission_places: usize = execution_places + limits.queue_capacity();
        health.set_process(ProcessState::Running);
        TemplateServer {
            health,
            metrics: Metrics::new(),
            request_ids: RequestIdSource::default(),
            gate: ShutdownGate::new(),
            context: WorkloadContext { component: component.to_owned(), limits },
            execution_places,
            execution: Limiter::new(execution_places),
            admission: Limiter::new(admission_places),
        }
    }
}

/// A server that just started is live, is not ready, and says why.
pub proof fn started_servers_are_not_ready(server: TemplateServer, component: Seq<char>)
    requires
        server.started(component),
    ensures
        crate::health::snapshot_of(server.health.state(), server.health.all_ready()) == (
        HealthSnapshot {
            live: true,
            ready: false,
            reason: Some(ReadinessReason::ComponentUnavailable),
        }),
{
    assert(server.health.components().contains_key(component));
    assert(!server.health.components()[component]);
}

/// Admission is bounded: through any history of requests that are admitted and answered, no more are
/// admitted than may run or wait, and no more run than may; a request is answered that the service
/// is overloaded exactly when as many are admitted as may be, and once one of those is answered the
/// next request is admitted.
pub proof fn admitted_requests_are_bounded(
    server: TemplateServer,
    component: Seq<char>,
    admitted: Seq<PlaceEvent>,
    running: Seq<PlaceEvent>,
)
    requires
        server.started(component),
        returns_are_held(server.admission.bound(), admitted),
        returns_are_held(server.execution.bound(), running),
    ensures
        ({
            let values = server.context.bounds().values();
            let most = (values.concurrent + values.queue) as nat;
            let now = held_after(most, admitted);
            &&& now == count_of(most, admitted)
            &&& now <= most
            &&& held_after(values.concurrent as nat, running) <= values.concurrent
            &&& now == most <==> admission_refusal(now as nat, most) == Some(overloaded())
            &&& now < most <==> admission_refusal(now as nat, most) is None
            &&& now > 0 ==> admission_refusal(
                count_of(most, admitted.push(PlaceEvent::Return)),
                most,
            ) is None
        }),
{
    let values = server.context.bounds().values();
    let most = (values.concurrent + values.queue) as nat;
    places_are_bounded(most, admitted);
    places_are_bounded(values.concurrent as nat, running);
    assert(admitted.push(PlaceEvent::Return).drop_last() =~= admitted);
}

/// Whether HTTP was forced to stop: the drain was, or the listener did not close in time.
pub fn http_forced(drain: DrainOutcome, listener_timed_out: bool) -> (r: bool)
    ensures
        r == (drain == DrainOutcome::Forced || listener_timed_out),
{
    drain == DrainOutcome::Forced || listener_timed_out
}

/// The error of a shutdown that was asked for, if it ended with one.
pub fn shutdown_error(forced: bool, cleanup_completed: bool) -> (r: Option<&'static str>)
    ensures
        match r {
            None => !forced && cleanup_completed,
            Some(message) => message@ == if forced {
                "HTTP drain exceeded its configured bound"@
            } else {
                "workload shutdown exceeded its configured bound"@
            } && (forced || !cleanup_completed),
        },
{
    if forced {
        Some("HTTP drain exceeded its configured bound")
    } else if !cleanup_completed {
        Some("workload shutdown exceeded its configured bound")
    } else {
        None
    }
}

/// What to do about a workload's cleanup after it was polled once.
#[derive(Debug, Clone, Copy, PartialEq, Eq, Structural)]
pub enum CleanupStep {
    /// It completed.
    Completed,
    /// The deadline elapsed: force it.
    Force,
    /// Wait for it until the deadline.
    Wait,
}

/// Decides about a workload's cleanup after it was polled once.
pub fn cleanup_polled(completed: bool, past_deadline: bool) -> (step: CleanupStep)
    ensures
        step == if completed {
            CleanupStep::Completed
        } else if past_deadline {
            CleanupStep::Force
        } else {
            CleanupStep::Wait
        },
{
    if completed {
        CleanupStep::Completed
    } else if past_deadline {
        CleanupStep::Force
    } else {
        CleanupStep::Wait
    }
}

/// Where a host that shuts down stands.
#[derive(Debug, Clone, Copy, PartialEq, Eq, Structural)]
pub enum HostState {
    /// Admitted work is being drained.
    Draining,
    /// The listener is being closed after a drain that ended so.
    ClosingListener(DrainOutcome),
    /// Shutdown was forced: admission is being stopped and the force token cancelled.
    Forcing,
    /// The workload's cleanup is being polled for the first time, after a forced stop or not.
    Polling(bool),
    /// The workload's cleanup is being awaited until the deadline, after a forced stop or not.
    Cleaning(bool),
    /// The cleanup was late: the force token is being cancelled, after a forced stop or not.
    Expiring(bool),
    /// The host has stopped.
    Stopped,
}

/// What happened to a host that shuts down.
#[derive(Debug, Clone, Copy, PartialEq, Eq, Structural)]
pub enum HostEvent {
    /// The drain ended.
    Drained(DrainOutcome),
    /// The listener closed, in time or not.
    ListenerClosed(bool),
    /// The force token was cancelled.
    ForceCancelled,
    /// The cleanup was polled once.
    Polled {
        /// Whether it completed.
        completed: bool,
        /// Whether the deadline has elapsed.
        past_deadline: bool,
    },
    /// The cleanup was awaited; whether it completed in time.
    Cleaned(bool),
}

/// What a host that shuts down is to do.
#[derive(Debug, Clone, Copy)]
pub enum HostAction {
    /// Drain admitted work.
    Drain,
    /// Close the listener until the deadline.
    CloseListener,
    /// Stop admission at once and cancel the force token.
    Force,
    /// Poll the workload's cleanup once.
    PollCleanup,
    /// Await the cleanup until the deadline.
    AwaitCleanup,
    /// Cancel the force token.
    CancelForce,
    /// Report how the shutdown ended: with an error or without.
    Report(Option<&'static str>),
}

/// How a shutdown ends: with this message, or without an error.
pub open spec fn shutdown_message(forced: bool, cleaned: bool) -> Option<Seq<char>> {
    if forced {
        Some("HTTP drain exceeded its configured bound"@)
    } else if !cleaned {
        Some("workload shutdown exceeded its configured bound"@)
    } else {
        None
    }
}

/// The state after an event, and how the shutdown ended where it did. An event that a state does
/// not wait for changes nothing.
pub open spec fn host_next(state: HostState, event: HostEvent) -> (
    HostState,
    Option<Option<Seq<char>>>,
) {
    match (state, event) {
        (HostState::Draining, HostEvent::Drained(drain)) => (
            HostState::ClosingListener(drain),
            None,
        ),
        (HostState::ClosingListener(drain), HostEvent::ListenerClosed(in_time)) => (
            if drain == DrainOutcome::Forced || !in_time {
                HostState::Forcing
            } else {
                HostState::Polling(false)
            },
            None,
        ),
        (HostState::Forcing, HostEvent::ForceCancelled) => (HostState::Polling(true), None),
        (HostState::Polling(forced), HostEvent::Polled { completed, past_deadline }) => if completed {
            (HostState::Stopped, Some(shutdown_message(forced, true)))
        } else if past_deadline {
            (HostState::Expiring(forced), None)
        } else {
            (HostState::Cleaning(forced), None)
        },
        (HostState::Cleaning(forced), HostEvent::Cleaned(in_time)) => if in_time {
            (HostState::Stopped, Some(shutdown_message(forced, true)))
        } else {
            (HostState::Expiring(forced), None)
        },
        (HostState::Expiring(forced), HostEvent::ForceCancelled) => (
            HostState::Stopped,
            Some(shutdown_message(forced, false)),
        ),
        (_, _) => (state, None),
    }
}

/// Whether a state calls for an action.
pub open spec fn host_calls_for(state: HostState, action: HostAction) -> bool {
    match state {
        HostState::Draining => action is Drain,
        HostState::ClosingListener(_) => action is CloseListener,
        HostState::Forcing => action is Force,
        HostState::Polling(_) => action is PollCleanup,
        HostState::Cleaning(_) => action is AwaitCleanup,
        HostState::Expiring(_) => action is CancelForce,
        HostState::Stopped => action == HostAction::Report(None),
    }
}

/// What a state calls for.
fn host_action(state: HostState) -> (action: HostAction)
    ensures
        host_calls_for(state, action),
{
    match state {
        HostState::Draining => HostAction::Drain,
        HostState::ClosingListener(_) => HostAction::CloseListener,
        HostState::Forcing => HostAction::Force,
        HostState::Polling(_) => HostAction::PollCleanup,
        HostState::Cleaning(_) => HostAction::AwaitCleanup,
        HostState::Expiring(_) => HostAction::CancelForce,
        HostState::Stopped => HostAction::Report(None),
    }
}

/// The process state that goes with a host's state.
pub open spec fn process_of(state: HostState) -> ProcessState {
    if state == HostState::Stopped {
        ProcessState::Stopped
    } else {
        ProcessState::Draining
    }
}

/// Begins a shutdown that was asked for: admitted work is drained.
pub fn shutdown_requested(health: &mut HealthRegistry) -> (r: (HostState, HostAction))
    ensures
        final(health).state() == ProcessState::Draining,
        final(health).components() == old(health).components(),
        r == (HostState::Draining, HostAction::Drain),
{
    health.set_process(ProcessState::Draining);
    (HostState::Draining, HostAction::Drain)
}

/// Begins the shutdown of a host whose listener ended by itself: admission stops at once, and only
/// the workload's cleanup is left.
pub fn listener_ended(health: &mut HealthRegistry, gate: &mut ShutdownGate) -> (r: (
    HostState,
    HostAction,
))
    ensures
        final(health).state() == ProcessState::Draining,
        final(health).components() == old(health).components(),
        final(gate).state() == old(gate).state().forced(),
        r == (HostState::Polling(false), HostAction::PollCleanup),
{
    health.set_process(ProcessState::Draining);
    gate.stop_now();
    (HostState::Polling(false), HostAction::PollCleanup)
}

/// Takes a shutdown one step further.
pub fn host_step(state: HostState, event: HostEvent, health: &mut HealthRegistry) -> (r: (
    HostState,
    HostAction,
))
    ensures
        r.0 == host_next(state, event).0,
        final(health).state() == process_of(r.0),
        final(health).components() == old(health).components(),
        match host_next(state, event).1 {
            Some(message) => match r.1 {
                HostAction::Report(reported) => message == match reported {
                    Some(text) => Some(text@),
                    None => None,
                },
                _ => false,
            },
            None => host_calls_for(r.0, r.1),
        },
{
    let (next, ended) = match (state, event) {
        (HostState::Draining, HostEvent::Drained(drain)) => (
            HostState::ClosingListener(drain),
            None,
        ),
        (HostState::ClosingListener(drain), HostEvent::ListenerClosed(in_time)) => (
            if http_forced(drain, !in_time) {
                HostState::Forcing
            } else {
                HostState::Polling(false)
            },
            None,
        ),
        (HostState::Forcing, HostEvent::ForceCancelled) => (HostState::Polling(true), None),
        (HostState::Polling(forced), HostEvent::Polled { completed, past_deadline }) => {
            match cleanup_polled(completed, past_deadline) {
                CleanupStep::Completed => (HostState::Stopped, Some((forced, true))),
                CleanupStep::Force => (HostState::Expiring(forced), None),
                CleanupStep::Wait => (HostState::Cleaning(forced), None),
            }
        },
        (HostState::Cleaning(forced), HostEvent::Cleaned(in_time)) => if in_time {
            (HostState::Stopped, Some((forced, true)))
        } else {
            (HostState::Expiring(forced), None)
        },
        (HostState::Expiring(forced), HostEvent::ForceCancelled) => (
            HostState::Stopped,
            Some((forced, false)),
        ),
        (_, _) => (state, None),
    };
    let process = match next {
        HostState::Stopped => ProcessState::Stopped,
        _ => ProcessState::Draining,
    };
    health.set_process(process);
    match ended {
        Some((forced, cleaned)) => (next, HostAction::Report(shutdown_error(forced, cleaned))),
        None => (next, host_action(next)),
    }
}

/// The state of a shutdown that was asked for, after events in a row.
pub open spec fn host_after(events: Seq<HostEvent>) -> HostState
    decreases events.len(),
{
    if events.len() == 0 {
        HostState::Draining
    } else {
        host_next(host_after(events.drop_last()), events.last()).0
    }
}

/// Whether a shutdown has been forced: the drain was, or the listener did not close in time.
pub open spec fn was_forced(events: Seq<HostEvent>) -> bool
    decreases events.len(),
{
    if events.len() == 0 {
        false
    } else {
        was_forced(events.drop_last()) || match (host_after(events.drop_last()), events.last()) {
            (HostState::ClosingListener(drain), HostEvent::ListenerClosed(in_time)) => drain
                == DrainOutcome::Forced || !in_time,
            _ => false,
        }
    }
}

/// Whether the force token has been cancelled before any cleanup was polled.
pub open spec fn force_was_cancelled(events: Seq<HostEvent>) -> bool
    decreases events.len(),
{
    if events.len() == 0 {
        false
    } else {
        force_was_cancelled(events.drop_last()) || (host_after(events.drop_last())
            == HostState::Forcing && events.last() is ForceCancelled)
    }
}

/// A forced shutdown tells the workload so before its cleanup is polled for the first time, and still
/// polls it: a host that polls, awaits, or expires after a forced stop has cancelled the force token,
/// one that does so without was not forced, and a forced shutdown ends with the error of its drain.
pub proof fn forced_cleanup_is_told(events: Seq<HostEvent>)
    ensures
        match host_after(events) {
            HostState::Polling(forced) | HostState::Cleaning(forced) | HostState::Expiring(forced) => {
                &&& forced == was_forced(events)
                &&& forced ==> force_was_cancelled(events)
            },
            HostState::Forcing => was_forced(events),
            HostState::Draining | HostState::ClosingListener(_) => !was_forced(events),
            HostState::Stopped => true,
        },
        forall|cleaned: bool|
            shutdown_message(true, cleaned) == Some("HTTP drain exceeded its configured bound"@),
    decreases events.len(),
{
    if events.len() > 0 {
        forced_cleanup_is_told(events.drop_last());
    }
}

/// A shutdown ends with what went wrong first, and with no error where nothing did: a drain that was
/// forced, or a listener that did not close in time, is told whatever became of the cleanup; a
/// cleanup counts where it completed when it was first polled or, with time left, in time. Nothing
/// is reported before the host has stopped.
pub proof fn shutdowns_end_with_their_error(
    drain: DrainOutcome,
    closed: bool,
    completed: bool,
    past_deadline: bool,
    cleaned: bool,
)
    ensures
        ({
            let forced = drain == DrainOutcome::Forced || !closed;
            let a = host_next(HostState::Draining, HostEvent::Drained(drain));
            let b = host_next(a.0, HostEvent::ListenerClosed(closed));
            let c = if forced {
                host_next(b.0, HostEvent::ForceCancelled)
            } else {
                b
            };
            let d = host_next(c.0, HostEvent::Polled { completed, past_deadline });
            let e = if completed || past_deadline {
                d
            } else {
                host_next(d.0, HostEvent::Cleaned(cleaned))
            };
            let clean = completed || (!past_deadline && cleaned);
            let end = if clean {
                e
            } else {
                host_next(e.0, HostEvent::ForceCancelled)
            };
            &&& a.1 is None && b.1 is None && c.1 is None
            &&& !completed ==> d.1 is None
            &&& !clean ==> e.1 is None
            &&& end.0 == HostState::Stopped
            &&& end.1 == Some(
                if forced {
                    Some("HTTP drain exceeded its configured bound"@)
                } else if clean {
                    None
                } else {
                    Some("workload shutdown exceeded its configured bound"@)
                },
            )
        }),
{
}

/// A host does one thing after the other: an event that it does not wait for changes nothing, and
/// once it has stopped nothing does.
pub proof fn unawaited_events_change_nothing(state: HostState, event: HostEvent)
    requires
        match event {
            HostEvent::Drained(_) => !(state is Draining),
            HostEvent::ListenerClosed(_) => !(state is ClosingListener),
            HostEvent::ForceCancelled => !(state is Forcing) && !(state is Expiring),
            HostEvent::Polled { .. } => !(state is Polling),
            HostEvent::Cleaned(_) => !(state is Cleaning),
        },
    ensures
        host_next(state, event) == (state, None::<Option<Seq<char>>>),
{
}

/// Every refusal says what happened in the way HTTP has for it: 503 where the server stopped, 504
/// where the time was up, 429 where there was no room, 413 where there was too much to read. A
/// request is cancelled exactly where its own work could still be going on.
pub proof fn refusals_say_what_happened(
    body: BodyOutcome,
    execution: ExecutionOutcome,
    free: bool,
    run: RunOutcome,
    admitted: nat,
    bound: nat,
)
    ensures
        body_refusal(body) is None <==> body == BodyOutcome::Read,
        body_refusal(body) matches Some((answer, cancel)) ==> {
            &&& answer.status == match body {
                BodyOutcome::Failed => 413u16,
                BodyOutcome::TimedOut => 504u16,
                _ => 503u16,
            }
            &&& cancel <==> body != BodyOutcome::Failed
        },
        execution_refusal(execution, free) is None <==> execution == ExecutionOutcome::Acquired
            && free,
        execution_refusal(execution, free) matches Some((answer, cancel)) ==> {
            &&& answer.status == if execution == ExecutionOutcome::TimedOut {
                504u16
            } else {
                503u16
            }
            &&& cancel <==> execution == ExecutionOutcome::TimedOut || execution
                == ExecutionOutcome::Stopped
        },
        run_replacement(run) is None <==> run == RunOutcome::Answered,
        run_replacement(run) matches Some(answer) ==> answer.status == if run
            == RunOutcome::TimedOut {
            504u16
        } else {
            503u16
        },
        admission_refusal(admitted, bound) is None <==> admitted < bound,
        admission_refusal(admitted, bound) matches Some(answer) ==> answer.status == 429
            && answer.code == "overloaded"@,
{
}

/// Failures are named alike wherever they come from: a stop is `cancelled`, an elapsed deadline is
/// `deadline_exceeded`, and a body that is too large is an `invalid_request`.
pub proof fn refusals_are_named(body: BodyOutcome, run: RunOutcome)
    ensures
        body_refusal(body) matches Some((answer, _)) ==> answer.code == match body {
            BodyOutcome::Failed => "invalid_request"@,
            BodyOutcome::TimedOut => "deadline_exceeded"@,
            _ => "cancelled"@,
        },
        run_replacement(run) matches Some(answer) ==> answer.code == if run
            == RunOutcome::TimedOut {
            "deadline_exceeded"@
        } else {
            "cancelled"@
        },
        internal().status == 500 && internal().code == "internal"@,
{
}

/// Two answers of a framework are reworded, a method that is not supported and a body that is too
/// large; their status stays, and every other answer is left alone.
pub proof fn two_answers_are_reworded(status: u16)
    ensures
        reworded(status) is Some <==> status == 405 || status == 413,
        reworded(status) matches Some(answer) ==> answer.status == status && answer.code
            == "invalid_request"@,
{
}

/// Health answers 200 exactly where the question is answered with yes, and 503 otherwise; only
/// readiness gives a reason, and gives the one that was found.
pub proof fn health_answers_yes_with_200(
    snapshot: HealthSnapshot,
    lives: HealthBody,
    serves: HealthBody,
)
    requires
        call_ensures(live, (snapshot,), lives),
        call_ensures(ready, (snapshot,), serves),
    ensures
        lives.code == 200 <==> snapshot.live,
        lives.code == 503 <==> !snapshot.live,
        lives.status@ == "live"@ <==> snapshot.live,
        lives.reason is None,
        serves.code == 200 <==> snapshot.ready,
        serves.code == 503 <==> !snapshot.ready,
        serves.status@ == "ready"@ <==> snapshot.ready,
        serves.reason is Some <==> snapshot.reason is Some,
        serves.reason matches Some(reason) ==> reason@ == snapshot.reason->0.code(),
{
    reveal_strlit("live");
    reveal_strlit("stopped");
    reveal_strlit("ready");
    reveal_strlit("not_ready");
    assert("live"@.len() == 4 && "stopped"@.len() == 7);
    assert("ready"@.len() == 5 && "not_ready"@.len() == 9);
}

/// A header that identifies a request reads back as its number, so that no two requests share one.
pub proof fn identities_read_back(number: u64, other: u64)
    ensures
        id_header(number) matches Some(text) && decimal(text) == Some(number as nat),
        id_header(number) == id_header(other) ==> number == other,
{
    decimal_round_trip(number as nat);
    decimal_round_trip(other as nat);
}

/// Requests are counted one by one, modulo the counter's size.
pub proof fn requests_are_counted_one_by_one(requests: u64)
    ensures
        counted(requests) == (requests + 1) % 0x1_0000_0000_0000_0000,
{
}

/// What a framework's answer is replaced with keeps the identity that the answer had.
pub proof fn reworded_answers_keep_their_identity(
    status: u16,
    request_id: Option<String>,
    answer: Option<Reworded>,
)
    requires
        call_ensures(normalize_public_failures, (status, request_id), answer),
    ensures
        answer is Some <==> status == 405 || status == 413,
        answer matches Some(found) ==> found.error.status == status && header_view(
            found.request_id,
        ) == header_view(request_id),
{
}

/// What a shutdown came to: forced where the drain was or the listener was late, and a cleanup that
/// did not complete is waited for exactly while there is time.
pub proof fn shutdown_steps_are_judged(
    drain: DrainOutcome,
    late: bool,
    forced: bool,
    completed: bool,
    past_deadline: bool,
    step: CleanupStep,
    error: Option<&'static str>,
)
    requires
        call_ensures(http_forced, (drain, late), forced),
        call_ensures(cleanup_polled, (completed, past_deadline), step),
        call_ensures(shutdown_error, (forced, completed), error),
    ensures
        !forced <==> drain == DrainOutcome::Graceful && !late,
        step == CleanupStep::Wait <==> !completed && !past_deadline,
        step == CleanupStep::Completed <==> completed,
        error is None <==> drain == DrainOutcome::Graceful && !late && completed,
{
}

/// The control plane promises nothing on behalf of a workload but that it needs no network.
pub proof fn control_planes_promise_little(promised: Capabilities, missing: ApiError)
    requires
        call_ensures(capabilities, (), promised),
        call_ensures(not_found, (), missing),
    ensures
        !promised.speech_to_text && !promised.text_to_speech && !promised.realtime_websocket,
        !promised.grpc && !promised.mcp,
        promised.offline_after_setup,
        missing.status == 404 && missing.code@ == "invalid_request"@,
{
}

/// A host does one thing in each state, and a process has stopped exactly when its host has.
pub proof fn hosts_do_one_thing_at_a_time(state: HostState, action: HostAction)
    ensures
        process_of(state) == ProcessState::Stopped <==> state == HostState::Stopped,
        process_of(state) == ProcessState::Draining <==> state != HostState::Stopped,
        host_calls_for(state, action) ==> {
            &&& action is Drain <==> state is Draining
            &&& action is CloseListener <==> state is ClosingListener
            &&& action is Force <==> state is Forcing
            &&& action is PollCleanup <==> state is Polling
            &&& action is AwaitCleanup <==> state is Cleaning
            &&& action is CancelForce <==> state is Expiring
        },
{
}

}
