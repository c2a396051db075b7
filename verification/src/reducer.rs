//! The state machine: what an event does to the state, and what it calls for.

use crate::events::{effects_view, EffectView, Event, SideEffect};
use crate::state::{
    backoff, retry_delay, AppState, AppView, DesiredServiceState, Service, ServiceState,
    ServiceStatus, StatusView, HEALTH_FAIL_THRESHOLD, MAX_RETRIES,
};
use crate::text::{decimal, exit_code_text, push_decimal, push_exit_code};
use vstd::prelude::*;
use vstd::string::StringExecFns;

verus! {

// ---------------------------------------------------------------------------
// The transitions of one service
// ---------------------------------------------------------------------------
/// A log line about a service.
pub open spec fn note(svc: Service, text: Seq<char>) -> EffectView {
    EffectView::LogEvent(svc.name() + text)
}

/// A service that is started from scratch.
pub open spec fn launched(status: StatusView) -> StatusView {
    StatusView {
        state: ServiceState::Starting,
        desired: DesiredServiceState::Running,
        retry_count: 0,
        last_error: None,
        ..status
    }
}

/// A service that has failed for good.
pub open spec fn failed(status: StatusView, reason: Seq<char>) -> StatusView {
    StatusView { state: ServiceState::Error, last_error: Some(reason), ..status }
}

/// A log line about an event that means nothing in the present state.
pub open spec fn ignored(svc: Service, status: StatusView, event: Seq<char>) -> (
    StatusView,
    Seq<EffectView>,
) {
    (status, seq![EffectView::LogEvent(svc.name() + event + status.state.name())])
}

/// The user starts the service.
pub open spec fn on_start(svc: Service, status: StatusView) -> (StatusView, Seq<EffectView>) {
    match status.state {
        ServiceState::Stopped | ServiceState::Error => (
            launched(status),
            seq![
                EffectView::SpawnService(svc),
                EffectView::StartReadinessCheck(svc),
                note(svc, ": starting"@),
                EffectView::PersistDesiredState,
            ],
        ),
        ServiceState::Crashed => (
            launched(status),
            seq![
                EffectView::SpawnService(svc),
                EffectView::StartReadinessCheck(svc),
                note(svc, ": restarting after crash"@),
                EffectView::PersistDesiredState,
            ],
        ),
        _ => ignored(svc, status, ": StartService ignored in state "@),
    }
}

/// The user stops the service.
pub open spec fn on_stop(svc: Service, status: StatusView) -> (StatusView, Seq<EffectView>) {
    match status.state {
        ServiceState::Running | ServiceState::Starting => (
            StatusView {
                state: ServiceState::Stopping,
                desired: DesiredServiceState::Stopped,
                ..status
            },
            seq![
                EffectView::StopHealthCheck(svc),
                EffectView::KillService(svc),
                note(svc, ": stopping"@),
                EffectView::PersistDesiredState,
            ],
        ),
        ServiceState::Crashed | ServiceState::Error => (
            StatusView {
                state: ServiceState::Stopped,
                desired: DesiredServiceState::Stopped,
                ..status
            },
            seq![EffectView::PersistDesiredState],
        ),
        _ => ignored(svc, status, ": StopService ignored in state "@),
    }
}

/// The user restarts the service.
pub open spec fn on_restart(svc: Service, status: StatusView) -> (StatusView, Seq<EffectView>) {
    match status.state {
        ServiceState::Running | ServiceState::Starting => (
            StatusView {
                state: ServiceState::Stopping,
                desired: DesiredServiceState::Running,
                ..status
            },
            seq![
                EffectView::StopHealthCheck(svc),
                EffectView::KillService(svc),
                note(svc, ": restarting"@),
            ],
        ),
        ServiceState::Stopped | ServiceState::Crashed | ServiceState::Error => (
            launched(status),
            seq![
                EffectView::SpawnService(svc),
                EffectView::StartReadinessCheck(svc),
                note(svc, ": starting (restart)"@),
            ],
        ),
        ServiceState::Stopping => (
            StatusView { desired: DesiredServiceState::Running, ..status },
            seq![note(svc, ": will restart once stopped"@)],
        ),
    }
}

/// The process answers.
pub open spec fn on_ready(svc: Service, status: StatusView) -> (StatusView, Seq<EffectView>) {
    if status.state is Starting {
        (
            StatusView {
                state: ServiceState::Running,
                retry_count: 0,
                health_fail_streak: 0,
                ..status
            },
            seq![note(svc, ": ready"@)],
        )
    } else {
        ignored(svc, status, ": ProcessReady ignored in state "@)
    }
}

/// The line that announces a retry.
pub open spec fn retry_note(svc: Service, retry_count: nat, delay: u64) -> EffectView {
    EffectView::LogEvent(
        svc.name() + ": retry "@ + decimal(retry_count + 1) + " of "@ + decimal(MAX_RETRIES as nat)
            + " in "@ + decimal(delay as nat) + "s"@,
    )
}

/// The process is gone although nobody asked for it.
pub open spec fn on_crash(svc: Service, status: StatusView, exit_code: Option<i32>) -> (
    StatusView,
    Seq<EffectView>,
) {
    let crashed = StatusView {
        state: ServiceState::Crashed,
        last_error: Some("exited unexpectedly (code "@ + exit_code_text(exit_code) + ")"@),
        ..status
    };
    let told = seq![
        EffectView::StopHealthCheck(svc),
        EffectView::LogEvent(
            svc.name() + ": crashed (exit "@ + exit_code_text(exit_code) + ")"@,
        ),
    ];
    if status.desired is Running {
        match backoff(status.retry_count) {
            Some(delay) => (
                StatusView { retry_count: status.retry_count + 1, ..crashed },
                told.push(EffectView::ScheduleRetry { service: svc, delay }).push(
                    retry_note(svc, status.retry_count, delay),
                ),
            ),
            None => (
                failed(crashed, "max retries exceeded"@),
                told.push(note(svc, ": max retries exceeded → Error"@)),
            ),
        }
    } else {
        (crashed, told)
    }
}

/// The process is gone.
pub open spec fn on_exit(svc: Service, status: StatusView, exit_code: Option<i32>) -> (
    StatusView,
    Seq<EffectView>,
) {
    match status.state {
        ServiceState::Stopping => {
            let told = seq![
                EffectView::LogEvent(
                    svc.name() + ": stopped (exit "@ + exit_code_text(exit_code) + ")"@,
                ),
            ];
            if status.desired is Running {
                (
                    StatusView { state: ServiceState::Starting, retry_count: 0, ..status },
                    told.push(EffectView::SpawnService(svc)).push(
                        EffectView::StartReadinessCheck(svc),
                    ).push(note(svc, ": restarting per desired state"@)),
                )
            } else {
                (StatusView { state: ServiceState::Stopped, ..status }, told)
            }
        },
        ServiceState::Starting | ServiceState::Running => on_crash(svc, status, exit_code),
        _ => ignored(svc, status, ": ProcessExit ignored in state "@),
    }
}

/// The process could not be started.
pub open spec fn on_spawn_failed(svc: Service, status: StatusView, reason: Seq<char>) -> (
    StatusView,
    Seq<EffectView>,
) {
    (failed(status, reason), seq![EffectView::LogEvent(svc.name() + ": spawn failed — "@ + reason)])
}

/// The service passed a health check.
pub open spec fn on_health_pass(svc: Service, status: StatusView) -> (
    StatusView,
    Seq<EffectView>,
) {
    if status.state is Running {
        (StatusView { health_fail_streak: 0, ..status }, seq![])
    } else {
        (status, seq![])
    }
}

/// The service failed a health check.
pub open spec fn on_health_fail(svc: Service, status: StatusView) -> (
    StatusView,
    Seq<EffectView>,
) {
    let streak = status.health_fail_streak + 1;
    let counted = StatusView { health_fail_streak: streak, ..status };
    let told = seq![
        EffectView::LogEvent(
            svc.name() + ": health check failed ("@ + decimal(streak) + " consecutive)"@,
        ),
    ];
    if !(status.state is Running) {
        (status, seq![])
    } else if streak < HEALTH_FAIL_THRESHOLD {
        (counted, told)
    } else {
        let crashed = StatusView {
            state: ServiceState::Crashed,
            last_error: Some(decimal(streak) + " consecutive health check failures"@),
            ..counted
        };
        let killed = told.push(EffectView::StopHealthCheck(svc)).push(EffectView::KillService(svc));
        if status.desired is Running {
            match backoff(status.retry_count) {
                Some(delay) => (
                    StatusView { retry_count: status.retry_count + 1, ..crashed },
                    killed.push(EffectView::ScheduleRetry { service: svc, delay }),
                ),
                None => (
                    failed(crashed, "max retries exceeded after health failures"@),
                    killed.push(note(svc, ": max retries exceeded → Error"@)),
                ),
            }
        } else {
            (crashed, killed)
        }
    }
}

/// The port of the service is taken.
pub open spec fn on_port_conflict(svc: Service, status: StatusView) -> (
    StatusView,
    Seq<EffectView>,
) {
    (
        failed(status, "port already in use"@),
        seq![note(svc, ": port conflict detected → Error"@)],
    )
}

/// The pause before a retry is over.
pub open spec fn on_auto_retry(svc: Service, status: StatusView) -> (
    StatusView,
    Seq<EffectView>,
) {
    if status.state is Crashed && status.desired is Running {
        (
            StatusView { state: ServiceState::Starting, ..status },
            seq![
                EffectView::SpawnService(svc),
                EffectView::StartReadinessCheck(svc),
                note(svc, ": auto-retry starting"@),
            ],
        )
    } else {
        (status, seq![])
    }
}

/// Something went wrong that cannot be mended.
pub open spec fn on_fatal(svc: Service, status: StatusView, reason: Seq<char>) -> (
    StatusView,
    Seq<EffectView>,
) {
    (
        failed(status, reason),
        seq![
            EffectView::StopHealthCheck(svc),
            EffectView::LogEvent(svc.name() + ": FATAL — "@ + reason),
        ],
    )
}

/// The service is to stop because everything stops.
pub open spec fn on_shutdown(svc: Service, status: StatusView) -> (StatusView, Seq<EffectView>) {
    let unwanted = StatusView { desired: DesiredServiceState::Stopped, ..status };
    if status.state is Running || status.state is Starting {
        (
            StatusView { state: ServiceState::Stopping, ..unwanted },
            seq![EffectView::StopHealthCheck(svc), EffectView::KillService(svc)],
        )
    } else {
        (unwanted, seq![])
    }
}

/// What an event about `svc` does to it.
pub open spec fn service_step(svc: Service, status: StatusView, event: Event) -> (
    StatusView,
    Seq<EffectView>,
) {
    match event {
        Event::StartService(_) => on_start(svc, status),
        Event::StopService(_) => on_stop(svc, status),
        Event::RestartService(_) => on_restart(svc, status),
        Event::ProcessExit { exit_code, .. } => on_exit(svc, status, exit_code),
        Event::ProcessReady(_) => on_ready(svc, status),
        Event::ProcessSpawnFailed { reason, .. } => on_spawn_failed(svc, status, reason@),
        Event::HealthCheckPass(_) => on_health_pass(svc, status),
        Event::HealthCheckFail(_) => on_health_fail(svc, status),
        Event::PortConflictDetected(_) => on_port_conflict(svc, status),
        Event::FatalError { reason, .. } => on_fatal(svc, status, reason@),
        Event::AutoRetry(_) => on_auto_retry(svc, status),
        Event::ConfigReloaded | Event::Tick | Event::ShutdownAll => (status, seq![]),
    }
}

// ---------------------------------------------------------------------------
// The transitions of the whole system
// ---------------------------------------------------------------------------
/// All services stop.
pub open spec fn shut_down(state: AppView) -> (AppView, Seq<EffectView>) {
    let apache = on_shutdown(Service::Apache, state.apache);
    let mysql = on_shutdown(Service::Mysql, state.mysql);
    let php = on_shutdown(Service::Php, state.php);
    (
        AppView { apache: apache.0, mysql: mysql.0, php: php.0, ..state },
        (apache.1 + mysql.1 + php.1).push(
            EffectView::LogEvent("shutting down all services"@),
        ).push(EffectView::PersistDesiredState),
    )
}

/// What an event does to the state, and the effects that it calls for.
pub open spec fn reduce(state: AppView, event: Event) -> (AppView, Seq<EffectView>) {
    match event.service() {
        Some(svc) => {
            let step = service_step(svc, state.of(svc), event);
            (state.with(svc, step.0), step.1)
        },
        None => match event {
            Event::ConfigReloaded => (state, seq![EffectView::LogEvent("config reloaded"@)]),
            Event::ShutdownAll => shut_down(state),
            _ => (state, seq![]),
        },
    }
}

/// The failed health checks in a row can still be counted. It holds of every
/// state in which `AppView::wf` does.
pub open spec fn countable(state: AppView, event: Event) -> bool {
    event matches Event::HealthCheckFail(svc) ==> state.of(svc).state is Running ==> state.of(
        svc,
    ).health_fail_streak < u32::MAX
}

// ---------------------------------------------------------------------------
// The executable reducer
// ---------------------------------------------------------------------------
fn emit(effects: &mut Vec<SideEffect>, effect: SideEffect)
    ensures
        effects_view(final(effects)@) == effects_view(old(effects)@).push(effect@),
{
    let ghost before = effects@;
    effects.push(effect);
    assert(effects_view(effects@) =~= effects_view(before).push(effect@));
}

fn emit_note(effects: &mut Vec<SideEffect>, svc: Service, text: &str)
    ensures
        effects_view(final(effects)@) == effects_view(old(effects)@).push(note(svc, text@)),
{
    let mut line = svc.label().to_string();
    line.append(text);
    emit(effects, SideEffect::LogEvent(line));
}

fn emit_ignored(effects: &mut Vec<SideEffect>, svc: Service, text: &str, state: ServiceState)
    ensures
        effects_view(final(effects)@) == effects_view(old(effects)@).push(
            EffectView::LogEvent(svc.name() + text@ + state.name()),
        ),
{
    let mut line = svc.label().to_string();
    line.append(text);
    line.append(state.label());
    emit(effects, SideEffect::LogEvent(line));
}

fn emit_exit(effects: &mut Vec<SideEffect>, svc: Service, text: &str, exit_code: Option<i32>)
    ensures
        effects_view(final(effects)@) == effects_view(old(effects)@).push(
            EffectView::LogEvent(svc.name() + text@ + exit_code_text(exit_code) + ")"@),
        ),
{
    let mut line = svc.label().to_string();
    line.append(text);
    push_exit_code(&mut line, exit_code);
    line.append(")");
    emit(effects, SideEffect::LogEvent(line));
}

fn set_launched(status: &mut ServiceStatus)
    ensures
        final(status)@ == launched(old(status)@),
{
    status.state = ServiceState::Starting;
    status.desired = DesiredServiceState::Running;
    status.retry_count = 0;
    status.last_error = None;
}

fn start(svc: Service, status: &mut ServiceStatus, effects: &mut Vec<SideEffect>)
    requires
        old(effects)@.len() == 0,
    ensures
        (final(status)@, effects_view(final(effects)@)) == on_start(svc, old(status)@),
{
    assert(effects_view(effects@) =~= seq![]);
    match status.state {
        ServiceState::Stopped | ServiceState::Error => {
            set_launched(status);
            emit(effects, SideEffect::SpawnService(svc));
            emit(effects, SideEffect::StartReadinessCheck(svc));
            emit_note(effects, svc, ": starting");
            emit(effects, SideEffect::PersistDesiredState);
        },
        ServiceState::Crashed => {
            // The same as from Stopped: reset and try again.
            set_launched(status);
            emit(effects, SideEffect::SpawnService(svc));
            emit(effects, SideEffect::StartReadinessCheck(svc));
            emit_note(effects, svc, ": restarting after crash");
            emit(effects, SideEffect::PersistDesiredState);
        },
        other => {
            emit_ignored(effects, svc, ": StartService ignored in state ", other);
        },
    }
}

fn stop(svc: Service, status: &mut ServiceStatus, effects: &mut Vec<SideEffect>)
    requires
        old(effects)@.len() == 0,
    ensures
        (final(status)@, effects_view(final(effects)@)) == on_stop(svc, old(status)@),
{
    assert(effects_view(effects@) =~= seq![]);
    match status.state {
        ServiceState::Running | ServiceState::Starting => {
            status.state = ServiceState::Stopping;
            status.desired = DesiredServiceState::Stopped;
            emit(effects, SideEffect::StopHealthCheck(svc));
            emit(effects, SideEffect::KillService(svc));
            emit_note(effects, svc, ": stopping");
            emit(effects, SideEffect::PersistDesiredState);
        },
        ServiceState::Crashed | ServiceState::Error => {
            // Not running already: only what is wanted changes.
            status.state = ServiceState::Stopped;
            status.desired = DesiredServiceState::Stopped;
            emit(effects, SideEffect::PersistDesiredState);
        },
        other => {
            emit_ignored(effects, svc, ": StopService ignored in state ", other);
        },
    }
}

fn restart(svc: Service, status: &mut ServiceStatus, effects: &mut Vec<SideEffect>)
    requires
        old(effects)@.len() == 0,
    ensures
        (final(status)@, effects_view(final(effects)@)) == on_restart(svc, old(status)@),
{
    assert(effects_view(effects@) =~= seq![]);
    match status.state {
        ServiceState::Running | ServiceState::Starting => {
            // Once the process is gone, what is wanted starts it again.
            status.state = ServiceState::Stopping;
            status.desired = DesiredServiceState::Running;
            emit(effects, SideEffect::StopHealthCheck(svc));
            emit(effects, SideEffect::KillService(svc));
            emit_note(effects, svc, ": restarting");
        },
        ServiceState::Stopped | ServiceState::Crashed | ServiceState::Error => {
            set_launched(status);
            emit(effects, SideEffect::SpawnService(svc));
            emit(effects, SideEffect::StartReadinessCheck(svc));
            emit_note(effects, svc, ": starting (restart)");
        },
        ServiceState::Stopping => {
            status.desired = DesiredServiceState::Running;
            emit_note(effects, svc, ": will restart once stopped");
        },
    }
}

fn ready(svc: Service, status: &mut ServiceStatus, effects: &mut Vec<SideEffect>)
    requires
        old(effects)@.len() == 0,
    ensures
        (final(status)@, effects_view(final(effects)@)) == on_ready(svc, old(status)@),
{
    assert(effects_view(effects@) =~= seq![]);
    if status.state == ServiceState::Starting {
        status.state = ServiceState::Running;
        status.retry_count = 0;
        status.health_fail_streak = 0;
        emit_note(effects, svc, ": ready");
    } else {
        emit_ignored(effects, svc, ": ProcessReady ignored in state ", status.state);
    }
}

fn crash(
    svc: Service,
    status: &mut ServiceStatus,
    exit_code: Option<i32>,
    effects: &mut Vec<SideEffect>,
)
    requires
        old(effects)@.len() == 0,
    ensures
        (final(status)@, effects_view(final(effects)@)) == on_crash(svc, old(status)@, exit_code),
{
    assert(effects_view(effects@) =~= seq![]);
    let mut error = "exited unexpectedly (code ".to_string();
    push_exit_code(&mut error, exit_code);
    error.append(")");
    status.state = ServiceState::Crashed;
    status.last_error = Some(error);
    emit(effects, SideEffect::StopHealthCheck(svc));
    emit_exit(effects, svc, ": crashed (exit ", exit_code);
    // Try again if the service is wanted and has a retry left.
    if status.desired == DesiredServiceState::Running {
        let retry: u32 = status.retry_count;
        if let Some(delay) = retry_delay(retry) {
            status.retry_count = retry + 1;
            emit(effects, SideEffect::ScheduleRetry { service: svc, delay });
            let mut line = svc.label().to_string();
            line.append(": retry ");
            push_decimal(&mut line, (retry + 1) as u64);
            line.append(" of ");
            push_decimal(&mut line, MAX_RETRIES as u64);
            line.append(" in ");
            push_decimal(&mut line, delay);
            line.append("s");
            emit(effects, SideEffect::LogEvent(line));
        } else {
            status.state = ServiceState::Error;
            status.last_error = Some("max retries exceeded".to_string());
            emit_note(effects, svc, ": max retries exceeded → Error");
        }
    }
}

fn exit(
    svc: Service,
    status: &mut ServiceStatus,
    exit_code: Option<i32>,
    effects: &mut Vec<SideEffect>,
)
    requires
        old(effects)@.len() == 0,
    ensures
        (final(status)@, effects_view(final(effects)@)) == on_exit(svc, old(status)@, exit_code),
{
    assert(effects_view(effects@) =~= seq![]);
    match status.state {
        ServiceState::Stopping => {
            status.state = ServiceState::Stopped;
            emit_exit(effects, svc, ": stopped (exit ", exit_code);
            // After a restart command the service is still wanted.
            if status.desired == DesiredServiceState::Running {
                status.state = ServiceState::Starting;
                status.retry_count = 0;
                emit(effects, SideEffect::SpawnService(svc));
                emit(effects, SideEffect::StartReadinessCheck(svc));
                emit_note(effects, svc, ": restarting per desired state");
            }
        },
        ServiceState::Starting | ServiceState::Running => {
            crash(svc, status, exit_code, effects);
        },
        other => {
            emit_ignored(effects, svc, ": ProcessExit ignored in state ", other);
        },
    }
}

fn spawn_failed(
    svc: Service,
    status: &mut ServiceStatus,
    reason: String,
    effects: &mut Vec<SideEffect>,
)
    requires
        old(effects)@.len() == 0,
    ensures
        (final(status)@, effects_view(final(effects)@)) == on_spawn_failed(
            svc,
            old(status)@,
            reason@,
        ),
{
    assert(effects_view(effects@) =~= seq![]);
    let mut line = svc.label().to_string();
    line.append(": spawn failed — ");
    line.append(reason.as_str());
    status.state = ServiceState::Error;
    status.last_error = Some(reason);
    emit(effects, SideEffect::LogEvent(line));
}

fn health_pass(svc: Service, status: &mut ServiceStatus)
    ensures
        (final(status)@, Seq::<EffectView>::empty()) == on_health_pass(svc, old(status)@),
{
    if status.state == ServiceState::Running {
        status.health_fail_streak = 0;
    }
}

fn health_fail(svc: Service, status: &mut ServiceStatus, effects: &mut Vec<SideEffect>)
    requires
        old(effects)@.len() == 0,
        old(status)@.state is Running ==> old(status)@.health_fail_streak < u32::MAX,
    ensures
        (final(status)@, effects_view(final(effects)@)) == on_health_fail(svc, old(status)@),
{
    assert(effects_view(effects@) =~= seq![]);
    if status.state == ServiceState::Running {
        let streak: u32 = status.health_fail_streak + 1;
        status.health_fail_streak = streak;
        let mut line = svc.label().to_string();
        line.append(": health check failed (");
        push_decimal(&mut line, streak as u64);
        line.append(" consecutive)");
        emit(effects, SideEffect::LogEvent(line));
        if streak >= HEALTH_FAIL_THRESHOLD {
            // The same as an unexpected exit.
            let mut error = String::new();
            push_decimal(&mut error, streak as u64);
            error.append(" consecutive health check failures");
            assert(error@ =~= decimal(streak as nat) + " consecutive health check failures"@);
            status.state = ServiceState::Crashed;
            status.last_error = Some(error);
            emit(effects, SideEffect::StopHealthCheck(svc));
            emit(effects, SideEffect::KillService(svc));
            if status.desired == DesiredServiceState::Running {
                let retry: u32 = status.retry_count;
                if let Some(delay) = retry_delay(retry) {
                    status.retry_count = retry + 1;
                    emit(effects, SideEffect::ScheduleRetry { service: svc, delay });
                } else {
                    status.state = ServiceState::Error;
                    status.last_error = Some(
                        "max retries exceeded after health failures".to_string(),
                    );
                    emit_note(effects, svc, ": max retries exceeded → Error");
                }
            }
        }
    }
}

fn port_conflict(svc: Service, status: &mut ServiceStatus, effects: &mut Vec<SideEffect>)
    requires
        old(effects)@.len() == 0,
    ensures
        (final(status)@, effects_view(final(effects)@)) == on_port_conflict(svc, old(status)@),
{
    assert(effects_view(effects@) =~= seq![]);
    status.state = ServiceState::Error;
    status.last_error = Some("port already in use".to_string());
    emit_note(effects, svc, ": port conflict detected → Error");
}

fn auto_retry(svc: Service, status: &mut ServiceStatus, effects: &mut Vec<SideEffect>)
    requires
        old(effects)@.len() == 0,
    ensures
        (final(status)@, effects_view(final(effects)@)) == on_auto_retry(svc, old(status)@),
{
    assert(effects_view(effects@) =~= seq![]);
    if status.state == ServiceState::Crashed && status.desired == DesiredServiceState::Running {
        status.state = ServiceState::Starting;
        emit(effects, SideEffect::SpawnService(svc));
        emit(effects, SideEffect::StartReadinessCheck(svc));
        emit_note(effects, svc, ": auto-retry starting");
    }
}

fn fatal(svc: Service, status: &mut ServiceStatus, reason: String, effects: &mut Vec<SideEffect>)
    requires
        old(effects)@.len() == 0,
    ensures
        (final(status)@, effects_view(final(effects)@)) == on_fatal(svc, old(status)@, reason@),
{
    assert(effects_view(effects@) =~= seq![]);
    let mut line = svc.label().to_string();
    line.append(": FATAL — ");
    line.append(reason.as_str());
    status.state = ServiceState::Error;
    status.last_error = Some(reason);
    emit(effects, SideEffect::StopHealthCheck(svc));
    emit(effects, SideEffect::LogEvent(line));
}

fn shutdown(svc: Service, status: &mut ServiceStatus, effects: &mut Vec<SideEffect>)
    ensures
        final(status)@ == on_shutdown(svc, old(status)@).0,
        effects_view(final(effects)@) == effects_view(old(effects)@) + on_shutdown(
            svc,
            old(status)@,
        ).1,
{
    let ghost before = effects_view(effects@);
    let ghost asked = on_shutdown(svc, status@).1;
    status.desired = DesiredServiceState::Stopped;
    match status.state {
        ServiceState::Running | ServiceState::Starting => {
            status.state = ServiceState::Stopping;
            emit(effects, SideEffect::StopHealthCheck(svc));
            emit(effects, SideEffect::KillService(svc));
        },
        _ => {},
    }
    assert(effects_view(effects@) =~= before + asked);
}

fn step(svc: Service, status: &mut ServiceStatus, event: Event, effects: &mut Vec<SideEffect>)
    requires
        old(effects)@.len() == 0,
        event.service() == Some(svc),
        event is HealthCheckFail ==> old(status)@.state is Running ==> old(
            status,
        )@.health_fail_streak < u32::MAX,
    ensures
        (final(status)@, effects_view(final(effects)@)) == service_step(svc, old(status)@, event),
{
    assert(effects_view(effects@) =~= seq![]);
    match event {
        Event::StartService(_) => start(svc, status, effects),
        Event::StopService(_) => stop(svc, status, effects),
        Event::RestartService(_) => restart(svc, status, effects),
        Event::ProcessReady(_) => ready(svc, status, effects),
        Event::ProcessExit { exit_code, .. } => exit(svc, status, exit_code, effects),
        Event::ProcessSpawnFailed { reason, .. } => spawn_failed(svc, status, reason, effects),
        Event::HealthCheckPass(_) => health_pass(svc, status),
        Event::HealthCheckFail(_) => health_fail(svc, status, effects),
        Event::PortConflictDetected(_) => port_conflict(svc, status, effects),
        Event::AutoRetry(_) => auto_retry(svc, status, effects),
        Event::FatalError { reason, .. } => fatal(svc, status, reason, effects),
        Event::ConfigReloaded | Event::Tick | Event::ShutdownAll => {},
    }
}

/// Applies one event to the state. There is no I/O in it: everything that has
/// to be done is returned, in the order in which to do it. An event that means
/// nothing in the present state leaves it as it is.
pub fn reducer(state: AppState, event: Event) -> (result: (AppState, Vec<SideEffect>))
    requires
        countable(state@, event),
    ensures
        (result.0@, effects_view(result.1@)) == reduce(state@, event),
{
    let mut state = state;
    let mut effects: Vec<SideEffect> = Vec::new();
    let ghost before = state@;
    assert(effects_view(effects@) =~= seq![]);
    if let Some(svc) = event.subject() {
        step(svc, state.service_mut(svc), event, &mut effects);
    } else {
        match event {
            Event::ConfigReloaded => {
                emit(&mut effects, SideEffect::LogEvent("config reloaded".to_string()));
            },
            Event::ShutdownAll => {
                shutdown(Service::Apache, &mut state.apache, &mut effects);
                shutdown(Service::Mysql, &mut state.mysql, &mut effects);
                shutdown(Service::Php, &mut state.php, &mut effects);
                assert(effects_view(effects@) =~= on_shutdown(Service::Apache, before.apache).1
                    + on_shutdown(Service::Mysql, before.mysql).1 + on_shutdown(
                    Service::Php,
                    before.php,
                ).1);
                emit(&mut effects, SideEffect::LogEvent("shutting down all services".to_string()));
                emit(&mut effects, SideEffect::PersistDesiredState);
            },
            _ => {},
        }
    }
    (state, effects)
}

} // verus!
