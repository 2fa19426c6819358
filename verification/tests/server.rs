//! Control plane, request policy, health, and shutdown.

use impossible_voice::health::{HealthRegistry, ProcessState, ReadinessReason};
use impossible_voice::limiter::Limiter;
use impossible_voice::limits::{ServerLimits, Timeout};
use impossible_voice::request::{RequestIdSource, RequestSignals, RequestStop};
use impossible_voice::server::{
    capabilities, cleanup_polled, enter, http_forced, live, normalize_public_failures, not_found,
    host_step, listener_ended, ready, shutdown_error, shutdown_requested, BodyOutcome, CleanupStep,
    ExecutionOutcome, HostAction, HostEvent, HostState, Metrics, PlaceholderWorkload,
    ReadingRequest, RunOutcome, TemplateServer,
};
use impossible_voice::shutdown::{DrainOutcome, ShutdownGate};

const SECOND: Timeout = Timeout { nanoseconds: 1_000_000_000 };

#[test]
fn readiness_requires_process_and_every_component() {
    let mut health = HealthRegistry::new();
    health.register_component("workload");
    assert_eq!(health.snapshot().reason, Some(ReadinessReason::ProcessNotRunning));
    health.set_process(ProcessState::Running);
    assert_eq!(health.snapshot().reason, Some(ReadinessReason::ComponentUnavailable));
    assert!(health.set_component_ready("workload", true));
    assert!(health.snapshot().ready);
    assert!(!health.set_component_ready("unknown", true));
    health.register_component("second");
    assert!(!health.snapshot().ready);
    health.register_component("workload");
    assert!(health.set_component_ready("second", true));
    assert!(health.snapshot().ready);
    health.set_process(ProcessState::Draining);
    assert!(health.snapshot().live && !health.snapshot().ready);
    health.set_process(ProcessState::Stopped);
    assert!(!health.snapshot().live);
}

#[test]
fn ids_are_nonzero_and_increase() {
    let mut source = RequestIdSource::default();
    assert_eq!(source.next().unwrap().get(), 1);
    assert_eq!(source.next().unwrap().get(), 2);
}

#[test]
fn exhausted_ids_never_wrap_or_repeat() {
    let mut source = RequestIdSource::after(u64::MAX - 1);
    assert_eq!(source.next().unwrap().get(), u64::MAX);
    assert!(source.next().is_err());
    let error = source.next().unwrap_err();
    assert_eq!(error.message(), "the process request identifier space is exhausted");
}

#[test]
fn cancellation_wins_over_the_deadline() {
    let signals = |cancelled, expired| RequestSignals { cancelled, expired }.stop_reason();
    assert_eq!(signals(false, false), None);
    assert_eq!(signals(true, true), Some(RequestStop::Cancelled));
    assert_eq!(signals(false, true), Some(RequestStop::DeadlineExceeded));
}

#[test]
fn drain_rejects_new_work_and_waits_for_active_work() {
    let mut gate = ShutdownGate::new();
    assert!(gate.try_enter());
    assert!(gate.try_enter());
    assert_eq!(gate.begin_drain(), None);
    assert!(!gate.is_accepting());
    assert!(!gate.try_enter());
    assert!(!gate.leave());
    assert!(!gate.is_stopped());
    assert!(gate.leave());
    assert!(gate.is_stopped());
    assert_eq!(gate.end_drain(true), DrainOutcome::Graceful);
    gate.stop_now();
    assert_eq!(gate.begin_drain(), Some(DrainOutcome::Graceful));
    assert!(!gate.try_enter());
}

#[test]
fn drain_is_forced_when_its_bound_elapses() {
    let mut gate = ShutdownGate::new();
    assert!(gate.try_enter());
    assert_eq!(gate.begin_drain(), None);
    assert_eq!(gate.end_drain(false), DrainOutcome::Forced);
    assert!(!gate.leave());
    assert_eq!(gate.begin_drain(), Some(DrainOutcome::Forced));
    let mut idle = ShutdownGate::new();
    assert_eq!(idle.begin_drain(), Some(DrainOutcome::Graceful));
    let mut stopped = ShutdownGate::new();
    stopped.stop_now();
    assert_eq!(stopped.begin_drain(), Some(DrainOutcome::Forced));
}

#[test]
fn limiters_never_exceed_their_maximum() {
    let mut limiter = Limiter::new(2);
    let place = limiter.acquire().unwrap();
    assert!(limiter.acquire().is_some());
    assert!(limiter.acquire().is_none());
    limiter.release(place);
    assert!(limiter.acquire().is_some());
    assert!(Limiter::new(0).acquire().is_none());
}

fn places(limiter: &mut Limiter) -> usize {
    let mut count = 0;
    while limiter.acquire().is_some() {
        count += 1;
    }
    count
}

#[test]
fn started_servers_are_live_and_not_ready() {
    let workload = PlaceholderWorkload;
    let mut server = TemplateServer::new(workload.component_name());
    assert_eq!((server.execution_places, places(&mut server.admission)), (8, 136));
    assert_eq!(places(&mut server.execution), 8);
    let body = live(server.health.snapshot());
    assert_eq!((body.code, body.status, body.reason), (200, "live", None));
    let body = ready(server.health.snapshot());
    assert_eq!(
        (body.code, body.status, body.reason),
        (503, "not_ready", Some("component_unavailable"))
    );
    server.context.set_ready(&mut server.health, true);
    let body = ready(server.health.snapshot());
    assert_eq!((body.code, body.status, body.reason), (200, "ready", None));
    server.health.set_process(ProcessState::Stopped);
    assert_eq!(live(server.health.snapshot()).code, 503);
    assert_eq!(ready(server.health.snapshot()).reason, Some("process_not_running"));
    assert_eq!(workload.answer().status, 501);
    assert!(!capabilities().speech_to_text);
    assert!(capabilities().offline_after_setup);
    let limits = ServerLimits::new(4, 1, 1, SECOND, SECOND).unwrap();
    let mut server = TemplateServer::with_limits("workload", limits);
    assert_eq!((server.execution_places, places(&mut server.admission)), (1, 2));
    assert_eq!(server.context.limits().max_request_bytes(), 4);
}

#[test]
fn metrics_are_rendered_as_text() {
    let mut metrics = Metrics::new();
    for _ in 0..12 {
        metrics.increment();
    }
    assert_eq!(
        metrics.render(),
        "# HELP impossible_voice_control_requests_total Control-plane HTTP requests.\n\
         # TYPE impossible_voice_control_requests_total counter\n\
         impossible_voice_control_requests_total 12\n"
    );
}

fn reading(ids: &mut RequestIdSource) -> ReadingRequest {
    let mut gate = ShutdownGate::new();
    let (request, _) = enter(&mut gate).unwrap().place(&mut Limiter::new(1)).unwrap();
    request.identify(ids).unwrap().bound(true).unwrap()
}

#[test]
fn requests_are_answered_with_an_identity_when_they_run() {
    let mut ids = RequestIdSource::after(41);
    let request = reading(&mut ids);
    let request = request.body(BodyOutcome::Read).unwrap();
    let mut running = Limiter::new(3);
    let (request, _) = request.execution(ExecutionOutcome::Acquired, &mut running).unwrap();
    let completion = request.finish(RunOutcome::Answered);
    assert_eq!(completion.request_id, "42");
    assert!(completion.replacement.is_none());
    for (outcome, status) in [(RunOutcome::Stopped, 503), (RunOutcome::TimedOut, 504)] {
        let request = reading(&mut ids).body(BodyOutcome::Read).unwrap();
        let (request, _) = request.execution(ExecutionOutcome::Acquired, &mut running).unwrap();
        let completion = request.finish(outcome);
        assert_eq!(completion.replacement.unwrap().status, status);
    }
}

#[test]
fn requests_that_go_no_further_say_why() {
    let mut ids = RequestIdSource::default();
    for (outcome, status, code, cancel) in [
        (BodyOutcome::Stopped, 503, "cancelled", true),
        (BodyOutcome::Failed, 413, "invalid_request", false),
        (BodyOutcome::TimedOut, 504, "deadline_exceeded", true),
    ] {
        let refusal = reading(&mut ids).body(outcome).unwrap_err();
        assert_eq!((refusal.error.status, refusal.error.code), (status, code));
        assert_eq!(refusal.cancel, cancel);
        assert!(refusal.request_id.is_some());
    }
    for (outcome, status, cancel) in [
        (ExecutionOutcome::Stopped, 503, true),
        (ExecutionOutcome::Closed, 503, false),
        (ExecutionOutcome::TimedOut, 504, true),
    ] {
        let request = reading(&mut ids).body(BodyOutcome::Read).unwrap();
        let refusal = request.execution(outcome, &mut Limiter::new(1)).unwrap_err();
        assert_eq!((refusal.error.status, refusal.cancel), (status, cancel));
        assert!(refusal.request_id.is_some());
    }
    let mut gate = ShutdownGate::new();
    let refusal = enter(&mut gate).unwrap().place(&mut Limiter::new(0)).unwrap_err();
    assert_eq!((refusal.error.status, refusal.error.code), (429, "overloaded"));
    assert_eq!(refusal.request_id, None);
    let mut exhausted = RequestIdSource::after(u64::MAX);
    let (placed, _) = enter(&mut gate).unwrap().place(&mut Limiter::new(1)).unwrap();
    assert_eq!(placed.identify(&mut exhausted).unwrap_err().error.status, 500);
    let (placed, _) = enter(&mut gate).unwrap().place(&mut Limiter::new(1)).unwrap();
    let identified = placed.identify(&mut RequestIdSource::after(8)).unwrap();
    let refusal = identified.bound(false).unwrap_err();
    assert_eq!(refusal.error.code, "internal");
    assert_eq!(refusal.request_id.as_deref(), Some("9"));
    gate.stop_now();
    assert_eq!(enter(&mut gate).unwrap_err().error.status, 503);
}

#[test]
fn framework_failures_are_reworded() {
    let answer = normalize_public_failures(405, None).unwrap();
    assert_eq!((answer.error.status, answer.error.code), (405, "invalid_request"));
    assert_eq!(answer.request_id, None);
    let answer = normalize_public_failures(413, Some("7".to_string())).unwrap();
    assert_eq!(answer.error.message, "the request body exceeds the configured limit");
    assert_eq!(answer.request_id.as_deref(), Some("7"));
    assert!(normalize_public_failures(200, Some("7".to_string())).is_none());
    assert_eq!(not_found().status, 404);
}

#[test]
fn shutdown_reports_what_exceeded_its_bound() {
    assert!(http_forced(DrainOutcome::Forced, false));
    assert!(http_forced(DrainOutcome::Graceful, true));
    assert!(!http_forced(DrainOutcome::Graceful, false));
    assert_eq!(shutdown_error(false, true), None);
    assert_eq!(
        shutdown_error(true, true),
        Some("HTTP drain exceeded its configured bound")
    );
    assert_eq!(
        shutdown_error(false, false),
        Some("workload shutdown exceeded its configured bound")
    );
    assert_eq!(cleanup_polled(true, true), CleanupStep::Completed);
    assert_eq!(cleanup_polled(false, true), CleanupStep::Force);
    assert_eq!(cleanup_polled(false, false), CleanupStep::Wait);
}

#[test]
fn identified_requests_keep_their_identity_when_refused() {
    let mut ids = RequestIdSource::after(6);
    let refusal = reading(&mut ids).body(BodyOutcome::Failed).unwrap_err();
    assert_eq!(refusal.request_id.as_deref(), Some("7"));
    let request = reading(&mut ids).body(BodyOutcome::Read).unwrap();
    let refusal = request
        .execution(ExecutionOutcome::TimedOut, &mut Limiter::new(1))
        .unwrap_err();
    assert_eq!(refusal.request_id.as_deref(), Some("8"));
}

#[test]
fn admission_and_execution_never_exceed_their_places() {
    let limits = ServerLimits::new(4, 1, 1, SECOND, SECOND).unwrap();
    let mut server = TemplateServer::with_limits("workload", limits);
    let (_, first) = enter(&mut server.gate).unwrap().place(&mut server.admission).unwrap();
    assert!(enter(&mut server.gate).unwrap().place(&mut server.admission).is_ok());
    let refusal = enter(&mut server.gate).unwrap().place(&mut server.admission).unwrap_err();
    assert_eq!(refusal.error.status, 429);
    server.admission.release(first);
    assert!(enter(&mut server.gate).unwrap().place(&mut server.admission).is_ok());
    let queued = |ids: &mut RequestIdSource| reading(ids).body(BodyOutcome::Read).unwrap();
    let ids = &mut server.request_ids;
    let execution = &mut server.execution;
    let (_, place) = queued(ids).execution(ExecutionOutcome::Acquired, execution).unwrap();
    let refusal = queued(ids).execution(ExecutionOutcome::Acquired, execution).unwrap_err();
    assert_eq!((refusal.error.status, refusal.cancel), (503, false));
    execution.release(place);
    assert!(queued(ids).execution(ExecutionOutcome::Acquired, execution).is_ok());
}

#[test]
fn shutdown_tokens_follow_their_host() {
    let mut server = TemplateServer::new("workload");
    let token = server.context.shutdown_token();
    assert!(!token.is_cancelled(Some(&server.gate)));
    assert!(server.gate.try_enter());
    assert_eq!(server.gate.begin_drain(), None);
    assert!(!token.is_cancelled(Some(&server.gate)));
    assert!(server.gate.leave());
    assert!(token.is_cancelled(Some(&server.gate)));
    assert!(server.context.shutdown_token().is_cancelled(Some(&server.gate)));
    let mut forced = ShutdownGate::new();
    forced.stop_now();
    assert!(token.is_cancelled(Some(&forced)));
    assert!(token.is_cancelled(None));
}

#[test]
fn forced_shutdown_tells_the_workload_before_its_cleanup_is_polled() {
    let mut health = HealthRegistry::new();
    let (state, action) = shutdown_requested(&mut health);
    assert!(matches!(action, HostAction::Drain));
    let (state, action) = host_step(state, HostEvent::Drained(DrainOutcome::Forced), &mut health);
    assert!(matches!(action, HostAction::CloseListener));
    let (state, action) = host_step(state, HostEvent::ListenerClosed(true), &mut health);
    assert_eq!(state, HostState::Forcing);
    assert!(matches!(action, HostAction::Force));
    let (state, action) = host_step(state, HostEvent::ForceCancelled, &mut health);
    assert!(matches!(action, HostAction::PollCleanup));
    assert!(health.snapshot().live && !health.snapshot().ready);
    let event = HostEvent::Polled { completed: false, past_deadline: true };
    let (state, action) = host_step(state, event, &mut health);
    assert!(matches!(action, HostAction::CancelForce));
    let (state, action) = host_step(state, HostEvent::ForceCancelled, &mut health);
    assert_eq!(state, HostState::Stopped);
    assert!(matches!(
        action,
        HostAction::Report(Some("HTTP drain exceeded its configured bound"))
    ));
    assert!(!health.snapshot().live);
}

#[test]
fn orderly_shutdown_awaits_the_cleanup() {
    let mut health = HealthRegistry::new();
    let (state, _) = shutdown_requested(&mut health);
    let (state, _) = host_step(state, HostEvent::Drained(DrainOutcome::Graceful), &mut health);
    let (state, action) = host_step(state, HostEvent::ListenerClosed(true), &mut health);
    assert_eq!(state, HostState::Polling(false));
    assert!(matches!(action, HostAction::PollCleanup));
    let event = HostEvent::Polled { completed: false, past_deadline: false };
    let (waiting, action) = host_step(state, event, &mut health);
    assert!(matches!(action, HostAction::AwaitCleanup));
    let (state, action) = host_step(waiting, HostEvent::Cleaned(true), &mut health);
    assert_eq!(state, HostState::Stopped);
    assert!(matches!(action, HostAction::Report(None)));
    let (late, action) = host_step(waiting, HostEvent::Cleaned(false), &mut health);
    assert!(matches!(action, HostAction::CancelForce));
    let (_, action) = host_step(late, HostEvent::ForceCancelled, &mut health);
    assert!(matches!(
        action,
        HostAction::Report(Some("workload shutdown exceeded its configured bound"))
    ));
}

#[test]
fn listeners_that_end_by_themselves_stop_admission_at_once() {
    let mut health = HealthRegistry::new();
    let mut gate = ShutdownGate::new();
    assert!(gate.try_enter());
    let (state, action) = listener_ended(&mut health, &mut gate);
    assert!(gate.is_stopped());
    assert_eq!(state, HostState::Polling(false));
    assert!(matches!(action, HostAction::PollCleanup));
}
