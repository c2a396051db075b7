//! What each event does to a service and calls for, in every state.

use crate::events::{EffectView, Event};
use crate::laws::{lemma_all_shutdown_effects, lemma_contains_few};
use crate::reducer::{reduce, service_step};
use crate::state::{
    AppView, DesiredServiceState, Service, ServiceState, StatusView, HEALTH_FAIL_THRESHOLD,
    MAX_RETRIES,
};
use crate::text::{decimal, exit_code_text};
use vstd::arithmetic::power2::pow2;
use vstd::prelude::*;

verus! {

/// A service after an event.
pub open spec fn after(state: AppView, event: Event, svc: Service) -> StatusView {
    reduce(state, event).0.of(svc)
}

/// An event calls for an effect.
pub open spec fn calls_for(state: AppView, event: Event, effect: EffectView) -> bool {
    reduce(state, event).1.contains(effect)
}

/// An event calls for a line in the log: the name of the service, and this text.
pub open spec fn tells(state: AppView, event: Event, svc: Service, text: Seq<char>) -> bool {
    calls_for(state, event, EffectView::LogEvent(svc.name() + text))
}

/// An effect stands at one of the first six places.
spec fn is_among(effects: Seq<EffectView>, effect: EffectView) -> bool {
    ||| effects.len() > 0 && effects[0] == effect
    ||| effects.len() > 1 && effects[1] == effect
    ||| effects.len() > 2 && effects[2] == effect
    ||| effects.len() > 3 && effects[3] == effect
    ||| effects.len() > 4 && effects[4] == effect
    ||| effects.len() > 5 && effects[5] == effect
}

proof fn lemma_calls(state: AppView, event: Event, svc: Service, effect: EffectView)
    requires
        event.service() == Some(svc),
    ensures
        reduce(state, event).1 == service_step(svc, state.of(svc), event).1,
        service_step(svc, state.of(svc), event).1.len() <= 6,
        calls_for(state, event, effect) <==> is_among(reduce(state, event).1, effect),
{
    lemma_contains_few(reduce(state, event).1, effect);
}

/// A start brings a service that is down on its way, whyever it is down: it is
/// wanted, has all its retries and no error, and its process is spawned and
/// waited for. A service that is up, or on its way up or down, is left alone.
pub proof fn law_start(state: AppView, svc: Service)
    ensures
        ({
            let event = Event::StartService(svc);
            let before = state.of(svc);
            if before.state is Stopped || before.state is Crashed || before.state is Error {
                &&& after(state, event, svc).state is Starting
                &&& after(state, event, svc).desired is Running
                &&& after(state, event, svc).retry_count == 0
                &&& after(state, event, svc).last_error is None
                &&& after(state, event, svc).health_fail_streak == before.health_fail_streak
                &&& calls_for(state, event, EffectView::SpawnService(svc))
                &&& calls_for(state, event, EffectView::StartReadinessCheck(svc))
                &&& calls_for(state, event, EffectView::PersistDesiredState)
                &&& before.state is Crashed ==> tells(
                    state,
                    event,
                    svc,
                    ": restarting after crash"@,
                )
                &&& !(before.state is Crashed) ==> tells(state, event, svc, ": starting"@)
                &&& reduce(state, event).1.len() == 4
            } else {
                &&& reduce(state, event).0 == state
                &&& reduce(state, event).1 == seq![
                    EffectView::LogEvent(
                        svc.name() + ": StartService ignored in state "@ + before.state.name(),
                    ),
                ]
            }
        }),
{
    let event = Event::StartService(svc);
    lemma_calls(state, event, svc, EffectView::SpawnService(svc));
    lemma_calls(state, event, svc, EffectView::StartReadinessCheck(svc));
    lemma_calls(state, event, svc, EffectView::PersistDesiredState);
    lemma_calls(state, event, svc, EffectView::LogEvent(svc.name() + ": starting"@));
    lemma_calls(state, event, svc, EffectView::LogEvent(svc.name() + ": restarting after crash"@));
}

/// A stop ends a service whatever it is doing, and it is not wanted any more. One
/// that is up is shut down; one that has crashed or failed is simply stopped. A
/// service that is stopped, or on its way there, is left alone.
pub proof fn law_stop(state: AppView, svc: Service)
    ensures
        ({
            let event = Event::StopService(svc);
            let before = state.of(svc);
            match before.state {
                ServiceState::Running | ServiceState::Starting => {
                    &&& after(state, event, svc).state is Stopping
                    &&& after(state, event, svc).desired is Stopped
                    &&& calls_for(state, event, EffectView::StopHealthCheck(svc))
                    &&& calls_for(state, event, EffectView::KillService(svc))
                    &&& calls_for(state, event, EffectView::PersistDesiredState)
                    &&& tells(state, event, svc, ": stopping"@)
                    &&& reduce(state, event).1.len() == 4
                },
                ServiceState::Crashed | ServiceState::Error => {
                    &&& after(state, event, svc).state is Stopped
                    &&& after(state, event, svc).desired is Stopped
                    &&& reduce(state, event).1 == seq![EffectView::PersistDesiredState]
                },
                ServiceState::Stopped | ServiceState::Stopping => {
                    &&& reduce(state, event).0 == state
                    &&& reduce(state, event).1 == seq![
                        EffectView::LogEvent(
                            svc.name() + ": StopService ignored in state "@ + before.state.name(),
                        ),
                    ]
                },
            }
        }),
        after(state, Event::StopService(svc), svc).retry_count == state.of(svc).retry_count,
        after(state, Event::StopService(svc), svc).last_error == state.of(svc).last_error,
        after(state, Event::StopService(svc), svc).health_fail_streak == state.of(
            svc,
        ).health_fail_streak,
{
    let event = Event::StopService(svc);
    lemma_calls(state, event, svc, EffectView::StopHealthCheck(svc));
    lemma_calls(state, event, svc, EffectView::KillService(svc));
    lemma_calls(state, event, svc, EffectView::PersistDesiredState);
    lemma_calls(state, event, svc, EffectView::LogEvent(svc.name() + ": stopping"@));
}

/// A retry that was planned before a service was stopped does nothing to it.
pub proof fn law_stop_cancels_retries(state: AppView, svc: Service)
    ensures
        ({
            let stopped = reduce(state, Event::StopService(svc)).0;
            &&& reduce(stopped, Event::AutoRetry(svc)).0 == stopped
            &&& reduce(stopped, Event::AutoRetry(svc)).1.len() == 0
        }),
{
}

/// A restart ends a service that is up, and starts one that is down; either way
/// the service is wanted. One that is on its way down will come back.
pub proof fn law_restart(state: AppView, svc: Service)
    ensures
        ({
            let event = Event::RestartService(svc);
            let before = state.of(svc);
            let then = after(state, event, svc);
            match before.state {
                ServiceState::Running | ServiceState::Starting => {
                    &&& then.state is Stopping
                    &&& then.retry_count == before.retry_count
                    &&& then.last_error == before.last_error
                    &&& calls_for(state, event, EffectView::StopHealthCheck(svc))
                    &&& calls_for(state, event, EffectView::KillService(svc))
                    &&& tells(state, event, svc, ": restarting"@)
                    &&& reduce(state, event).1.len() == 3
                },
                ServiceState::Stopped | ServiceState::Crashed | ServiceState::Error => {
                    &&& then.state is Starting
                    &&& then.retry_count == 0
                    &&& then.last_error is None
                    &&& calls_for(state, event, EffectView::SpawnService(svc))
                    &&& calls_for(state, event, EffectView::StartReadinessCheck(svc))
                    &&& tells(state, event, svc, ": starting (restart)"@)
                    &&& reduce(state, event).1.len() == 3
                },
                ServiceState::Stopping => {
                    &&& then.state is Stopping
                    &&& then.retry_count == before.retry_count
                    &&& then.last_error == before.last_error
                    &&& reduce(state, event).1 == seq![
                        EffectView::LogEvent(svc.name() + ": will restart once stopped"@),
                    ]
                },
            }
        }),
        after(state, Event::RestartService(svc), svc).desired is Running,
        after(state, Event::RestartService(svc), svc).health_fail_streak == state.of(
            svc,
        ).health_fail_streak,
{
    let event = Event::RestartService(svc);
    lemma_calls(state, event, svc, EffectView::StopHealthCheck(svc));
    lemma_calls(state, event, svc, EffectView::KillService(svc));
    lemma_calls(state, event, svc, EffectView::SpawnService(svc));
    lemma_calls(state, event, svc, EffectView::StartReadinessCheck(svc));
    lemma_calls(state, event, svc, EffectView::LogEvent(svc.name() + ": restarting"@));
    lemma_calls(state, event, svc, EffectView::LogEvent(svc.name() + ": starting (restart)"@));
}

/// A service that is being started runs once it is ready, and has all its retries
/// back. Otherwise the news that it is ready changes nothing.
pub proof fn law_ready(state: AppView, svc: Service)
    ensures
        ({
            let event = Event::ProcessReady(svc);
            let before = state.of(svc);
            let then = after(state, event, svc);
            if before.state is Starting {
                &&& then.state is Running
                &&& then.desired == before.desired
                &&& then.retry_count == 0
                &&& then.last_error == before.last_error
                &&& then.health_fail_streak == 0
                &&& reduce(state, event).1 == seq![EffectView::LogEvent(svc.name() + ": ready"@)]
            } else {
                &&& reduce(state, event).0 == state
                &&& reduce(state, event).1 == seq![
                    EffectView::LogEvent(
                        svc.name() + ": ProcessReady ignored in state "@ + before.state.name(),
                    ),
                ]
            }
        }),
{
}

/// What becomes of a wanted service that has crashed: as long as it has retries
/// left one is planned and counted, and after the last it has failed.
pub open spec fn retried(
    state: AppView,
    event: Event,
    svc: Service,
    why: Seq<char>,
    why_failed: Seq<char>,
) -> bool {
    let before = state.of(svc);
    let then = after(state, event, svc);
    if before.desired is Stopped {
        &&& then.state is Crashed
        &&& then.retry_count == before.retry_count
        &&& then.last_error == Some(why)
        &&& forall|delay: u64|
            !#[trigger] calls_for(state, event, EffectView::ScheduleRetry { service: svc, delay })
    } else if before.retry_count < MAX_RETRIES {
        &&& then.state is Crashed
        &&& then.retry_count == before.retry_count + 1
        &&& then.last_error == Some(why)
        &&& forall|delay: u64| #[trigger]
            calls_for(state, event, EffectView::ScheduleRetry { service: svc, delay }) <==> delay
                == pow2(before.retry_count)
    } else {
        &&& then.state is Error
        &&& then.retry_count == before.retry_count
        &&& then.last_error == Some(why_failed)
        &&& tells(state, event, svc, ": max retries exceeded → Error"@)
        &&& forall|delay: u64|
            !#[trigger] calls_for(state, event, EffectView::ScheduleRetry { service: svc, delay })
    }
}

/// The end of a process ends the shutdown of a service, or begins its restart if
/// the service is wanted. If nobody asked for it, the service has crashed, its
/// health is checked no longer, and it is retried if it is wanted. A service that
/// is down anyway is left alone.
pub proof fn law_exit(state: AppView, svc: Service, exit_code: Option<i32>)
    ensures
        ({
            let event = Event::ProcessExit { service: svc, exit_code };
            let before = state.of(svc);
            let then = after(state, event, svc);
            let code = exit_code_text(exit_code);
            &&& then.desired == before.desired
            &&& then.health_fail_streak == before.health_fail_streak
            &&& match before.state {
                ServiceState::Stopping => {
                    &&& then.last_error == before.last_error
                    &&& tells(state, event, svc, ": stopped (exit "@ + code + ")"@)
                    &&& if before.desired is Running {
                        &&& then.state is Starting
                        &&& then.retry_count == 0
                        &&& calls_for(state, event, EffectView::SpawnService(svc))
                        &&& calls_for(state, event, EffectView::StartReadinessCheck(svc))
                        &&& tells(state, event, svc, ": restarting per desired state"@)
                        &&& reduce(state, event).1.len() == 4
                    } else {
                        &&& then.state is Stopped
                        &&& then.retry_count == before.retry_count
                        &&& reduce(state, event).1.len() == 1
                    }
                },
                ServiceState::Starting | ServiceState::Running => {
                    &&& retried(
                        state,
                        event,
                        svc,
                        "exited unexpectedly (code "@ + code + ")"@,
                        "max retries exceeded"@,
                    )
                    &&& calls_for(state, event, EffectView::StopHealthCheck(svc))
                    &&& tells(state, event, svc, ": crashed (exit "@ + code + ")"@)
                    &&& !calls_for(state, event, EffectView::KillService(svc))
                },
                _ => {
                    &&& reduce(state, event).0 == state
                    &&& reduce(state, event).1 == seq![
                        EffectView::LogEvent(
                            svc.name() + ": ProcessExit ignored in state "@ + before.state.name(),
                        ),
                    ]
                },
            }
        }),
{
    let event = Event::ProcessExit { service: svc, exit_code };
    let code = exit_code_text(exit_code);
    lemma_calls(state, event, svc, EffectView::SpawnService(svc));
    lemma_calls(state, event, svc, EffectView::StartReadinessCheck(svc));
    lemma_calls(state, event, svc, EffectView::StopHealthCheck(svc));
    lemma_calls(state, event, svc, EffectView::KillService(svc));
    let name = svc.name();
    assert(name + ": stopped (exit "@ + code + ")"@ =~= name + (": stopped (exit "@ + code + ")"@));
    assert(name + ": crashed (exit "@ + code + ")"@ =~= name + (": crashed (exit "@ + code + ")"@));
    lemma_calls(
        state,
        event,
        svc,
        EffectView::LogEvent(name + (": stopped (exit "@ + code + ")"@)),
    );
    lemma_calls(
        state,
        event,
        svc,
        EffectView::LogEvent(name + (": crashed (exit "@ + code + ")"@)),
    );
    lemma_calls(state, event, svc, EffectView::LogEvent(name + ": restarting per desired state"@));
    lemma_retried(
        state,
        event,
        svc,
        "exited unexpectedly (code "@ + code + ")"@,
        "max retries exceeded"@,
    );
}

proof fn lemma_retried(
    state: AppView,
    event: Event,
    svc: Service,
    why: Seq<char>,
    why_failed: Seq<char>,
)
    requires
        match event {
            Event::ProcessExit { service, exit_code } => {
                &&& service == svc
                &&& why == "exited unexpectedly (code "@ + exit_code_text(exit_code) + ")"@
                &&& why_failed == "max retries exceeded"@
            },
            Event::HealthCheckFail(service) => {
                &&& service == svc
                &&& why == decimal(state.of(svc).health_fail_streak + 1)
                    + " consecutive health check failures"@
                &&& why_failed == "max retries exceeded after health failures"@
            },
            _ => false,
        },
    ensures
        state.of(svc).state is Running && state.of(svc).health_fail_streak + 1
            >= HEALTH_FAIL_THRESHOLD || (event is ProcessExit && (state.of(svc).state is Running
            || state.of(svc).state is Starting)) ==> retried(state, event, svc, why, why_failed),
{
    vstd::arithmetic::power2::lemma2_to64();
    lemma_calls(
        state,
        event,
        svc,
        EffectView::LogEvent(svc.name() + ": max retries exceeded → Error"@),
    );
    assert forall|delay: u64| #[trigger]
        calls_for(state, event, EffectView::ScheduleRetry { service: svc, delay }) <==> is_among(
            reduce(state, event).1,
            EffectView::ScheduleRetry { service: svc, delay },
        ) by {
        lemma_calls(state, event, svc, EffectView::ScheduleRetry { service: svc, delay });
    }
}

/// A retry after the end of a process is announced: which one of how many it is,
/// and how many seconds it is away.
pub proof fn law_retries_are_announced(state: AppView, svc: Service, exit_code: Option<i32>)
    requires
        state.of(svc).state is Starting || state.of(svc).state is Running,
        state.of(svc).desired is Running,
        state.of(svc).retry_count < MAX_RETRIES,
    ensures
        tells(
            state,
            Event::ProcessExit { service: svc, exit_code },
            svc,
            ": retry "@ + decimal(state.of(svc).retry_count + 1) + " of "@ + decimal(
                MAX_RETRIES as nat,
            ) + " in "@ + decimal(pow2(state.of(svc).retry_count)) + "s"@,
        ),
{
    vstd::arithmetic::power2::lemma2_to64();
    let event = Event::ProcessExit { service: svc, exit_code };
    let a = decimal(state.of(svc).retry_count + 1);
    let b = decimal(MAX_RETRIES as nat);
    let c = decimal(pow2(state.of(svc).retry_count));
    let name = svc.name();
    let rest = ": retry "@ + a + " of "@ + b + " in "@ + c + "s"@;
    assert(name + ": retry "@ + a + " of "@ + b + " in "@ + c + "s"@ =~= name + rest);
    lemma_calls(state, event, svc, EffectView::LogEvent(name + rest));
}

/// A passed health check ends the streak of failed ones, if the service runs, and
/// calls for nothing.
pub proof fn law_health_pass(state: AppView, svc: Service)
    ensures
        ({
            let event = Event::HealthCheckPass(svc);
            let before = state.of(svc);
            let then = after(state, event, svc);
            &&& reduce(state, event).1.len() == 0
            &&& then.state == before.state
            &&& then.desired == before.desired
            &&& then.retry_count == before.retry_count
            &&& then.last_error == before.last_error
            &&& before.state is Running ==> then.health_fail_streak == 0
            &&& !(before.state is Running) ==> reduce(state, event).0 == state
        }),
{
}

/// A failed health check is counted, if the service runs. With the last of as
/// many in a row as count as a crash, the service has crashed: its process is
/// killed, its health is checked no longer, and it is retried if it is wanted.
pub proof fn law_health_fail(state: AppView, svc: Service)
    ensures
        ({
            let event = Event::HealthCheckFail(svc);
            let before = state.of(svc);
            let then = after(state, event, svc);
            let streak = before.health_fail_streak + 1;
            if before.state is Running {
                &&& then.desired == before.desired
                &&& then.health_fail_streak == streak
                &&& tells(
                    state,
                    event,
                    svc,
                    ": health check failed ("@ + decimal(streak) + " consecutive)"@,
                )
                &&& if streak < HEALTH_FAIL_THRESHOLD {
                    &&& then.state is Running
                    &&& then.retry_count == before.retry_count
                    &&& then.last_error == before.last_error
                    &&& reduce(state, event).1.len() == 1
                } else {
                    &&& retried(
                        state,
                        event,
                        svc,
                        decimal(streak) + " consecutive health check failures"@,
                        "max retries exceeded after health failures"@,
                    )
                    &&& calls_for(state, event, EffectView::StopHealthCheck(svc))
                    &&& calls_for(state, event, EffectView::KillService(svc))
                }
            } else {
                &&& reduce(state, event).0 == state
                &&& reduce(state, event).1.len() == 0
            }
        }),
{
    let event = Event::HealthCheckFail(svc);
    let streak = state.of(svc).health_fail_streak + 1;
    let name = svc.name();
    let rest = ": health check failed ("@ + decimal(streak) + " consecutive)"@;
    assert(name + ": health check failed ("@ + decimal(streak) + " consecutive)"@ =~= name + rest);
    lemma_calls(state, event, svc, EffectView::LogEvent(name + rest));
    lemma_calls(state, event, svc, EffectView::StopHealthCheck(svc));
    lemma_calls(state, event, svc, EffectView::KillService(svc));
    lemma_retried(
        state,
        event,
        svc,
        decimal(streak) + " consecutive health check failures"@,
        "max retries exceeded after health failures"@,
    );
}

/// A retry starts a service that has crashed and is wanted, and keeps what is
/// known of it. Any other service it leaves alone.
pub proof fn law_auto_retry(state: AppView, svc: Service)
    ensures
        ({
            let event = Event::AutoRetry(svc);
            let before = state.of(svc);
            let then = after(state, event, svc);
            if before.state is Crashed && before.desired is Running {
                &&& then.state is Starting
                &&& then.desired is Running
                &&& then.retry_count == before.retry_count
                &&& then.last_error == before.last_error
                &&& then.health_fail_streak == before.health_fail_streak
                &&& calls_for(state, event, EffectView::SpawnService(svc))
                &&& calls_for(state, event, EffectView::StartReadinessCheck(svc))
                &&& tells(state, event, svc, ": auto-retry starting"@)
                &&& reduce(state, event).1.len() == 3
            } else {
                &&& reduce(state, event).0 == state
                &&& reduce(state, event).1.len() == 0
            }
        }),
{
    let event = Event::AutoRetry(svc);
    lemma_calls(state, event, svc, EffectView::SpawnService(svc));
    lemma_calls(state, event, svc, EffectView::StartReadinessCheck(svc));
    lemma_calls(state, event, svc, EffectView::LogEvent(svc.name() + ": auto-retry starting"@));
}

/// Whatever a service is doing, a failed start, a taken port or a fatal error is
/// its last error, and nothing else of it changes but its state. Only after a
/// fatal error its health is checked no longer.
pub proof fn law_failures(state: AppView, svc: Service, event: Event)
    requires
        event.service() == Some(svc),
        event is ProcessSpawnFailed || event is PortConflictDetected || event is FatalError,
    ensures
        ({
            let before = state.of(svc);
            let then = after(state, event, svc);
            &&& then.state is Error
            &&& then.desired == before.desired
            &&& then.retry_count == before.retry_count
            &&& then.health_fail_streak == before.health_fail_streak
            &&& match event {
                Event::ProcessSpawnFailed { reason, .. } => {
                    &&& then.last_error == Some(reason@)
                    &&& reduce(state, event).1 == seq![
                        EffectView::LogEvent(svc.name() + ": spawn failed — "@ + reason@),
                    ]
                },
                Event::PortConflictDetected(_) => {
                    &&& then.last_error == Some("port already in use"@)
                    &&& reduce(state, event).1 == seq![
                        EffectView::LogEvent(svc.name() + ": port conflict detected → Error"@),
                    ]
                },
                Event::FatalError { reason, .. } => {
                    &&& then.last_error == Some(reason@)
                    &&& reduce(state, event).1 == seq![
                        EffectView::StopHealthCheck(svc),
                        EffectView::LogEvent(svc.name() + ": FATAL — "@ + reason@),
                    ]
                },
                _ => true,
            }
        }),
{
}

/// A shutdown ends every service that is up, leaves the state of the others, and
/// writes down that none is wanted.
pub proof fn law_shutdown(state: AppView, svc: Service)
    ensures
        ({
            let event = Event::ShutdownAll;
            let before = state.of(svc);
            let then = after(state, event, svc);
            let up = before.state is Running || before.state is Starting;
            &&& then.state == (if up {
                ServiceState::Stopping
            } else {
                before.state
            })
            &&& then.desired is Stopped
            &&& then.retry_count == before.retry_count
            &&& then.last_error == before.last_error
            &&& then.health_fail_streak == before.health_fail_streak
            &&& calls_for(state, event, EffectView::StopHealthCheck(svc)) <==> up
            &&& calls_for(state, event, EffectView::KillService(svc)) <==> up
            &&& calls_for(state, event, EffectView::PersistDesiredState)
            &&& calls_for(state, event, EffectView::LogEvent("shutting down all services"@))
            &&& !calls_for(state, event, EffectView::SpawnService(svc))
        }),
{
    lemma_all_shutdown_effects(state, EffectView::StopHealthCheck(svc));
    lemma_all_shutdown_effects(state, EffectView::KillService(svc));
    lemma_all_shutdown_effects(state, EffectView::SpawnService(svc));
    lemma_all_shutdown_effects(state, EffectView::PersistDesiredState);
    lemma_all_shutdown_effects(state, EffectView::LogEvent("shutting down all services"@));
}

/// A reloaded configuration and a tick of the clock change nothing; the first is
/// logged.
pub proof fn law_other_events(state: AppView)
    ensures
        reduce(state, Event::ConfigReloaded).0 == state,
        reduce(state, Event::ConfigReloaded).1 == seq![EffectView::LogEvent("config reloaded"@)],
        reduce(state, Event::Tick).0 == state,
        reduce(state, Event::Tick).1.len() == 0,
{
}

/// What is wanted is written down exactly when a start or a stop is accepted, and
/// at a shutdown.
pub proof fn law_persisted_exactly(state: AppView, event: Event)
    ensures
        calls_for(state, event, EffectView::PersistDesiredState) <==> match event {
            Event::StartService(svc) => state.of(svc).state is Stopped || state.of(
                svc,
            ).state is Crashed || state.of(svc).state is Error,
            Event::StopService(svc) => !(state.of(svc).state is Stopped) && !(state.of(
                svc,
            ).state is Stopping),
            Event::ShutdownAll => true,
            _ => false,
        },
{
    match event.service() {
        Some(svc) => {
            lemma_calls(state, event, svc, EffectView::PersistDesiredState);
        },
        None => {
            lemma_all_shutdown_effects(state, EffectView::PersistDesiredState);
        },
    }
}

proof fn lemma_step_stops_checks(svc: Service, status: StatusView, event: Event, other: Service)
    requires
        event.service() == Some(svc),
    ensures
        service_step(svc, status, event).1.contains(EffectView::StopHealthCheck(other)) <==> (other
            == svc && {
            let then = service_step(svc, status, event).0.state;
            ||| event is FatalError
            ||| {
                &&& status.state is Running || status.state is Starting
                &&& then is Stopping || then is Crashed || then is Error
                &&& !(event is ProcessSpawnFailed)
                &&& !(event is PortConflictDetected)
            }
        }),
{
    lemma_contains_few(service_step(svc, status, event).1, EffectView::StopHealthCheck(other));
}

/// Health checks of a service are stopped exactly when it goes down from being up,
/// and at a fatal error; a failed start and a taken port do not mention them.
pub proof fn law_health_checks_stopped_exactly(state: AppView, event: Event, svc: Service)
    ensures
        calls_for(state, event, EffectView::StopHealthCheck(svc)) <==> {
            let before = state.of(svc).state;
            let then = after(state, event, svc).state;
            ||| event is FatalError && event.service() == Some(svc)
            ||| {
                &&& before is Running || before is Starting
                &&& then is Stopping || then is Crashed || then is Error
                &&& !(event is ProcessSpawnFailed)
                &&& !(event is PortConflictDetected)
            }
        },
{
    match event.service() {
        Some(subject) => {
            lemma_step_stops_checks(subject, state.of(subject), event, svc);
        },
        None => {
            lemma_all_shutdown_effects(state, EffectView::StopHealthCheck(svc));
        },
    }
}

/// The service that an effect is about, if it is about one.
pub open spec fn subject_of(effect: EffectView) -> Option<Service> {
    match effect {
        EffectView::SpawnService(svc) => Some(svc),
        EffectView::KillService(svc) => Some(svc),
        EffectView::ScheduleRetry { service, .. } => Some(service),
        EffectView::StartReadinessCheck(svc) => Some(svc),
        EffectView::StopHealthCheck(svc) => Some(svc),
        EffectView::LogEvent(_) | EffectView::PersistDesiredState => None,
    }
}

/// An event about a service calls for nothing about another one, asks for nothing
/// twice, and every line that it writes begins with the name of the service.
pub proof fn law_effects_are_about_the_service(
    state: AppView,
    event: Event,
    svc: Service,
    i: int,
    j: int,
)
    requires
        event.service() == Some(svc),
        0 <= i < reduce(state, event).1.len(),
        0 <= j < reduce(state, event).1.len(),
    ensures
        ({
            let effects = reduce(state, event).1;
            &&& subject_of(effects[i]) is Some ==> subject_of(effects[i]) == Some(svc)
            &&& effects[i] matches EffectView::LogEvent(line) ==> svc.name().is_prefix_of(line)
            &&& !(effects[i] is LogEvent) && effects[i] == effects[j] ==> i == j
        }),
{
    let effects = reduce(state, event).1;
    lemma_calls(state, event, svc, effects[i]);
    if let EffectView::LogEvent(line) = effects[i] {
        assert(svc.name() =~= line.take(svc.name().len() as int));
    }
}

/// A process is spawned before it is waited for, and its health checks are stopped
/// before it is killed, and both before a retry is planned.
pub proof fn law_order_of_effects(
    state: AppView,
    event: Event,
    svc: Service,
    i: int,
    j: int,
    delay: u64,
)
    requires
        event.service() == Some(svc),
        0 <= i < reduce(state, event).1.len(),
        0 <= j < reduce(state, event).1.len(),
    ensures
        ({
            let effects = reduce(state, event).1;
            &&& effects[i] == EffectView::SpawnService(svc) && effects[j]
                == EffectView::StartReadinessCheck(svc) ==> i < j
            &&& effects[i] == EffectView::StopHealthCheck(svc) && effects[j]
                == EffectView::KillService(svc) ==> i < j
            &&& effects[i] == EffectView::KillService(svc) && effects[j] == (
            EffectView::ScheduleRetry { service: svc, delay }) ==> i < j
            &&& effects[i] == EffectView::StopHealthCheck(svc) && effects[j] == (
            EffectView::ScheduleRetry { service: svc, delay }) ==> i < j
        }),
{
    lemma_calls(state, event, svc, reduce(state, event).1[i]);
}

/// How many effects the shutdown of a service calls for.
pub open spec fn shutdown_effects(state: AppView, svc: Service) -> nat {
    if state.of(svc).state is Running || state.of(svc).state is Starting {
        2
    } else {
        0
    }
}

/// A shutdown calls for two things for each service that is up, and for two more:
/// for nothing else, and for nothing twice.
pub proof fn law_shutdown_is_exact(state: AppView, effect: EffectView)
    ensures
        calls_for(state, Event::ShutdownAll, effect) <==> match effect {
            EffectView::StopHealthCheck(svc) | EffectView::KillService(svc) => state.of(
                svc,
            ).state is Running || state.of(svc).state is Starting,
            EffectView::LogEvent(line) => line == "shutting down all services"@,
            EffectView::PersistDesiredState => true,
            _ => false,
        },
        reduce(state, Event::ShutdownAll).1.len() == 2 + shutdown_effects(state, Service::Apache)
            + shutdown_effects(state, Service::Mysql) + shutdown_effects(state, Service::Php),
{
    lemma_all_shutdown_effects(state, effect);
}

} // verus!
