//! What holds of the state machine whatever happens.

use crate::events::{EffectView, Event};
use crate::reducer::{countable, on_shutdown, reduce, service_step, shut_down};
use crate::state::{
    AppView, DesiredServiceState, Service, ServiceState, StatusView, HEALTH_FAIL_THRESHOLD,
    MAX_RETRIES,
};
use vstd::arithmetic::power2::pow2;
use vstd::prelude::*;

verus! {

// ---------------------------------------------------------------------------
// Runs
// ---------------------------------------------------------------------------
/// What a list of events does to a state, one event after the other, and all
/// effects that they call for.
pub open spec fn run(state: AppView, events: Seq<Event>) -> (AppView, Seq<EffectView>)
    decreases events.len(),
{
    if events.len() == 0 {
        (state, seq![])
    } else {
        let before = run(state, events.drop_last());
        let last = reduce(before.0, events.last());
        (last.0, before.1 + last.1)
    }
}

/// A state as it is when the program starts: nothing runs, and what is wanted
/// is what was kept from the last time.
pub open spec fn initial(state: AppView) -> bool {
    forall|svc: Service| #[trigger]
        state.of(svc) == (StatusView { desired: state.of(svc).desired, ..StatusView::fresh() })
}

proof fn lemma_wf_of(state: AppView)
    ensures
        state.wf() <==> forall|svc: Service| (#[trigger] state.of(svc)).wf(),
{
    if forall|svc: Service| (#[trigger] state.of(svc)).wf() {
        assert(state.of(Service::Apache).wf());
        assert(state.of(Service::Mysql).wf());
        assert(state.of(Service::Php).wf());
    }
}

/// Every event keeps the state well-formed, and every event can be applied to a
/// well-formed state.
pub proof fn law_well_formedness_is_kept(state: AppView, event: Event)
    requires
        state.wf(),
    ensures
        countable(state, event),
        reduce(state, event).0.wf(),
{
    lemma_wf_of(state);
    match event.service() {
        Some(svc) => {
            assert(state.of(svc).wf());
            assert(service_step(svc, state.of(svc), event).0.wf());
        },
        None => {},
    }
}

/// Every state that can be reached is well-formed.
pub proof fn law_reachable_states_are_well_formed(state: AppView, events: Seq<Event>)
    requires
        initial(state),
    ensures
        run(state, events).0.wf(),
    decreases events.len(),
{
    if events.len() == 0 {
        assert(state.of(Service::Apache).wf());
        assert(state.of(Service::Mysql).wf());
        assert(state.of(Service::Php).wf());
    } else {
        law_reachable_states_are_well_formed(state, events.drop_last());
        law_well_formedness_is_kept(run(state, events.drop_last()).0, events.last());
    }
}

// ---------------------------------------------------------------------------
// Single transitions
// ---------------------------------------------------------------------------
/// An event about one service leaves the others alone, and no event touches
/// the configuration or the ports.
pub proof fn law_services_are_independent(state: AppView, event: Event, other: Service)
    ensures
        event.service() is Some && event.service() != Some(other) ==> reduce(state, event).0.of(
            other,
        ) == state.of(other),
        reduce(state, event).0.config == state.config,
        reduce(state, event).0.ports == state.ports,
{
}

/// The transitions of a service.
pub proof fn law_transitions(
    state: AppView,
    svc: Service,
    exit_code: Option<i32>,
    fatal: Event,
)
    requires
        fatal is FatalError,
        fatal.service() == Some(svc),
    ensures
        state.of(svc).state is Stopped ==> reduce(state, Event::StartService(svc)).0.of(
            svc,
        ).state is Starting,
        state.of(svc).state is Starting ==> reduce(state, Event::ProcessReady(svc)).0.of(
            svc,
        ).state is Running,
        state.of(svc).state is Running ==> reduce(state, Event::StopService(svc)).0.of(
            svc,
        ).state is Stopping,
        state.of(svc).state is Stopping && state.of(svc).desired is Stopped ==> reduce(
            state,
            Event::ProcessExit { service: svc, exit_code },
        ).0.of(svc).state is Stopped,
        state.of(svc).state is Starting || state.of(svc).state is Running ==> {
            let after = reduce(state, Event::ProcessExit { service: svc, exit_code }).0.of(svc);
            if state.of(svc).desired is Running && state.of(svc).retry_count >= MAX_RETRIES {
                after.state is Error
            } else {
                after.state is Crashed
            }
        },
        state.of(svc).state is Crashed && state.of(svc).desired is Running ==> reduce(
            state,
            Event::AutoRetry(svc),
        ).0.of(svc).state is Starting,
        reduce(state, fatal).0.of(svc).state is Error,
{
}

/// An event means nothing to a service in its present state.
pub open spec fn rejected(status: StatusView, event: Event) -> bool {
    match event {
        Event::StartService(_) => status.state is Starting || status.state is Running
            || status.state is Stopping,
        Event::StopService(_) => status.state is Stopped || status.state is Stopping,
        Event::ProcessReady(_) => !(status.state is Starting),
        Event::ProcessExit { .. } => status.state is Stopped || status.state is Crashed
            || status.state is Error,
        Event::HealthCheckPass(_) | Event::HealthCheckFail(_) => !(status.state is Running),
        Event::AutoRetry(_) => !(status.state is Crashed && status.desired is Running),
        _ => false,
    }
}

/// A rejected event changes nothing and calls for nothing but a log line. A
/// rejected command, and a rejected signal of a process, is always logged.
pub proof fn law_rejected_events_change_nothing(state: AppView, svc: Service, event: Event)
    requires
        event.service() == Some(svc),
        rejected(state.of(svc), event),
    ensures
        reduce(state, event).0 == state,
        reduce(state, event).1.len() <= 1,
        forall|i: int|
            0 <= i < reduce(state, event).1.len() ==> (#[trigger] reduce(
                state,
                event,
            ).1[i]) is LogEvent,
        event is StartService || event is StopService || event is ProcessReady
            || event is ProcessExit ==> reduce(state, event).1.len() == 1,
{
}

/// A fatal error, a taken port and a failed start all end in `Error`, from
/// every state, and the reason is kept.
pub proof fn law_failures_end_in_error(state: AppView, svc: Service, event: Event)
    requires
        event.service() == Some(svc),
        event is FatalError || event is PortConflictDetected || event is ProcessSpawnFailed,
    ensures
        reduce(state, event).0.of(svc).state is Error,
        event matches Event::FatalError { reason, .. } ==> reduce(state, event).0.of(
            svc,
        ).last_error == Some(reason@),
        event matches Event::ProcessSpawnFailed { reason, .. } ==> reduce(state, event).0.of(
            svc,
        ).last_error == Some(reason@),
        event is PortConflictDetected ==> reduce(state, event).0.of(svc).last_error == Some(
            "port already in use"@,
        ),
{
}

/// The same event twice in a row leaves the state that it leaves once. This is
/// not so of a restart, of an exit and of a failed health check, each of which
/// counts every time.
pub proof fn law_events_are_idempotent(state: AppView, event: Event)
    requires
        !(event is RestartService),
        !(event is ProcessExit),
        !(event is HealthCheckFail),
    ensures
        reduce(reduce(state, event).0, event).0 == reduce(state, event).0,
{
}

// ---------------------------------------------------------------------------
// Effects
// ---------------------------------------------------------------------------
proof fn lemma_contains(effects: Seq<EffectView>, last: EffectView, effect: EffectView)
    ensures
        effects.push(last).contains(effect) <==> effects.contains(effect) || effect == last,
{
    if effects.contains(effect) {
        let i = choose|i: int| 0 <= i < effects.len() && effects[i] == effect;
        assert(effects.push(last)[i] == effect);
    }
    assert(effects.push(last)[effects.len() as int] == last);
}

/// A list of at most six effects holds an effect just if it stands at one of
/// the six places.
pub proof fn lemma_contains_few(effects: Seq<EffectView>, effect: EffectView)
    requires
        effects.len() <= 6,
    ensures
        effects.contains(effect) <==> {
            ||| effects.len() > 0 && effects[0] == effect
            ||| effects.len() > 1 && effects[1] == effect
            ||| effects.len() > 2 && effects[2] == effect
            ||| effects.len() > 3 && effects[3] == effect
            ||| effects.len() > 4 && effects[4] == effect
            ||| effects.len() > 5 && effects[5] == effect
        },
{
}

proof fn lemma_step_spawns(svc: Service, status: StatusView, event: Event, other: Service)
    requires
        event.service() == Some(svc),
    ensures
        service_step(svc, status, event).1.contains(EffectView::SpawnService(other)) <==> (other
            == svc && !(status.state is Starting) && service_step(
            svc,
            status,
            event,
        ).0.state is Starting),
        service_step(svc, status, event).1.contains(EffectView::StartReadinessCheck(other)) <==> (
        other == svc && !(status.state is Starting) && service_step(
            svc,
            status,
            event,
        ).0.state is Starting),
{
    let effects = service_step(svc, status, event).1;
    lemma_contains_few(effects, EffectView::SpawnService(other));
    lemma_contains_few(effects, EffectView::StartReadinessCheck(other));
}

proof fn lemma_step_kills(svc: Service, status: StatusView, event: Event, other: Service)
    requires
        event.service() == Some(svc),
    ensures
        service_step(svc, status, event).1.contains(EffectView::KillService(other)) <==> (other
            == svc && {
            let after = service_step(svc, status, event).0.state;
            ||| !(status.state is Stopping) && after is Stopping
            ||| event is HealthCheckFail && status.state is Running && !(after is Running)
        }),
{
    lemma_contains_few(service_step(svc, status, event).1, EffectView::KillService(other));
}

proof fn lemma_shut_down_effects(state: AppView, effect: EffectView)
    ensures
        shut_down(state).1.contains(effect) <==> {
            ||| on_shutdown(Service::Apache, state.apache).1.contains(effect)
            ||| on_shutdown(Service::Mysql, state.mysql).1.contains(effect)
            ||| on_shutdown(Service::Php, state.php).1.contains(effect)
            ||| effect == EffectView::LogEvent("shutting down all services"@)
            ||| effect == EffectView::PersistDesiredState
        },
{
    let a = on_shutdown(Service::Apache, state.apache).1;
    let b = on_shutdown(Service::Mysql, state.mysql).1;
    let c = on_shutdown(Service::Php, state.php).1;
    let line = EffectView::LogEvent("shutting down all services"@);
    lemma_contains(a + b + c, line, effect);
    lemma_contains((a + b + c).push(line), EffectView::PersistDesiredState, effect);
    vstd::seq_lib::lemma_seq_concat_contains_all_elements(a + b, c, effect);
    vstd::seq_lib::lemma_seq_concat_contains_all_elements(a, b, effect);
}

proof fn lemma_shutdown_effects(svc: Service, status: StatusView, effect: EffectView)
    ensures
        on_shutdown(svc, status).1.contains(effect) <==> {
            &&& status.state is Running || status.state is Starting
            &&& effect == EffectView::StopHealthCheck(svc) || effect == EffectView::KillService(svc)
        },
{
    lemma_contains_few(on_shutdown(svc, status).1, effect);
}

pub proof fn lemma_all_shutdown_effects(state: AppView, effect: EffectView)
    ensures
        shut_down(state).1.contains(effect) <==> {
            ||| effect matches EffectView::StopHealthCheck(svc) && (state.of(svc).state is Running
                || state.of(svc).state is Starting)
            ||| effect matches EffectView::KillService(svc) && (state.of(svc).state is Running
                || state.of(svc).state is Starting)
            ||| effect == EffectView::LogEvent("shutting down all services"@)
            ||| effect == EffectView::PersistDesiredState
        },
{
    lemma_shut_down_effects(state, effect);
    lemma_shutdown_effects(Service::Apache, state.apache, effect);
    lemma_shutdown_effects(Service::Mysql, state.mysql, effect);
    lemma_shutdown_effects(Service::Php, state.php, effect);
}

/// A process is started, and then watched for readiness, exactly when a service
/// enters `Starting`.
pub proof fn law_spawned_when_starting(state: AppView, event: Event, svc: Service)
    ensures
        reduce(state, event).1.contains(EffectView::SpawnService(svc)) <==> (!(state.of(
            svc,
        ).state is Starting) && reduce(state, event).0.of(svc).state is Starting),
        reduce(state, event).1.contains(EffectView::StartReadinessCheck(svc)) <==> reduce(
            state,
            event,
        ).1.contains(EffectView::SpawnService(svc)),
{
    match event.service() {
        Some(subject) => {
            lemma_step_spawns(subject, state.of(subject), event, svc);
        },
        None => {
            lemma_all_shutdown_effects(state, EffectView::SpawnService(svc));
            lemma_all_shutdown_effects(state, EffectView::StartReadinessCheck(svc));
        },
    }
}

/// A process is killed exactly when its service enters `Stopping`, or when it
/// has failed too many health checks.
pub proof fn law_killed_when_stopping(state: AppView, event: Event, svc: Service)
    ensures
        reduce(state, event).1.contains(EffectView::KillService(svc)) <==> {
            ||| !(state.of(svc).state is Stopping) && reduce(state, event).0.of(
                svc,
            ).state is Stopping
            ||| event == Event::HealthCheckFail(svc) && state.of(svc).state is Running && !(reduce(
                state,
                event,
            ).0.of(svc).state is Running)
        },
{
    match event.service() {
        Some(subject) => {
            lemma_step_kills(subject, state.of(subject), event, svc);
        },
        None => {
            lemma_all_shutdown_effects(state, EffectView::KillService(svc));
        },
    }
}

/// When a service leaves `Running`, its health checks stop; only a failed start
/// and a taken port, which are about a service that is being started, do not
/// mention them.
pub proof fn law_health_checks_stop_with_the_service(state: AppView, event: Event, svc: Service)
    requires
        state.of(svc).state is Running,
        !(reduce(state, event).0.of(svc).state is Running),
        !(event is ProcessSpawnFailed),
        !(event is PortConflictDetected),
    ensures
        reduce(state, event).1.contains(EffectView::StopHealthCheck(svc)),
{
    match event.service() {
        Some(subject) => {
            lemma_contains_few(
                service_step(subject, state.of(subject), event).1,
                EffectView::StopHealthCheck(svc),
            );
        },
        None => {
            lemma_all_shutdown_effects(state, EffectView::StopHealthCheck(svc));
        },
    }
}

/// Whenever what the user wants changes, it is written down, unless it changes
/// by a restart.
pub proof fn law_wishes_are_persisted(state: AppView, event: Event, svc: Service)
    requires
        reduce(state, event).0.of(svc).desired != state.of(svc).desired,
        !(event is RestartService),
    ensures
        reduce(state, event).1.contains(EffectView::PersistDesiredState),
{
    match event.service() {
        Some(subject) => {
            lemma_contains_few(
                service_step(subject, state.of(subject), event).1,
                EffectView::PersistDesiredState,
            );
        },
        None => {
            lemma_all_shutdown_effects(state, EffectView::PersistDesiredState);
        },
    }
}

// ---------------------------------------------------------------------------
// Retries
// ---------------------------------------------------------------------------
proof fn lemma_step_backoff(
    svc: Service,
    status: StatusView,
    event: Event,
    other: Service,
    delay: u64,
)
    requires
        event.service() == Some(svc),
    ensures
        ({
            let after = service_step(svc, status, event).0;
            let planned = service_step(svc, status, event).1.contains(
                EffectView::ScheduleRetry { service: other, delay },
            );
            &&& planned <==> {
                &&& other == svc
                &&& !(status.state is Crashed)
                &&& after.state is Crashed
                &&& after.desired is Running
                &&& delay == pow2(status.retry_count)
            }
            &&& planned ==> status.retry_count < MAX_RETRIES && after.retry_count
                == status.retry_count + 1
        }),
{
    vstd::arithmetic::power2::lemma2_to64();
    lemma_contains_few(
        service_step(svc, status, event).1,
        EffectView::ScheduleRetry { service: other, delay },
    );
}

/// A retry is planned exactly when a service that is wanted enters `Crashed`.
/// The pause before it is one second at first and doubles each time, and the
/// retry is counted.
pub proof fn law_backoff(state: AppView, event: Event, svc: Service, delay: u64)
    ensures
        ({
            let before = state.of(svc);
            let after = reduce(state, event).0.of(svc);
            let planned = reduce(state, event).1.contains(
                EffectView::ScheduleRetry { service: svc, delay },
            );
            &&& planned <==> {
                &&& !(before.state is Crashed)
                &&& after.state is Crashed
                &&& after.desired is Running
                &&& delay == pow2(before.retry_count)
            }
            &&& planned ==> before.retry_count < MAX_RETRIES && after.retry_count
                == before.retry_count + 1
        }),
{
    match event.service() {
        Some(subject) => {
            lemma_step_backoff(subject, state.of(subject), event, svc, delay);
        },
        None => {
            lemma_all_shutdown_effects(state, EffectView::ScheduleRetry { service: svc, delay });
        },
    }
}

/// An event that gives a service all its retries back.
pub open spec fn resets_retries(state: AppView, event: Event, svc: Service) -> bool {
    match event {
        Event::StartService(s) => s == svc,
        Event::RestartService(s) => s == svc,
        Event::ProcessReady(s) => s == svc,
        Event::ProcessExit { service, .. } => service == svc && state.of(svc).state is Stopping,
        _ => false,
    }
}

/// No event in a run gives the service its retries back.
pub open spec fn no_resets(state: AppView, events: Seq<Event>, svc: Service) -> bool {
    forall|i: int|
        0 <= i < events.len() ==> !resets_retries(
            run(state, events.take(i)).0,
            #[trigger] events[i],
            svc,
        )
}

/// How many retries of a service a list of effects plans.
pub open spec fn retries(effects: Seq<EffectView>, svc: Service) -> nat
    decreases effects.len(),
{
    if effects.len() == 0 {
        0
    } else {
        retries(effects.drop_last(), svc) + planned(effects.last(), svc)
    }
}

/// How many retries of a service one effect plans.
pub open spec fn planned(effect: EffectView, svc: Service) -> nat {
    if effect matches EffectView::ScheduleRetry { service, .. } && service == svc {
        1
    } else {
        0
    }
}

proof fn lemma_retries_push(effects: Seq<EffectView>, effect: EffectView, svc: Service)
    ensures
        retries(effects.push(effect), svc) == retries(effects, svc) + planned(effect, svc),
{
    assert(effects.push(effect).drop_last() =~= effects);
}

proof fn lemma_retries_add(a: Seq<EffectView>, b: Seq<EffectView>, svc: Service)
    ensures
        retries(a + b, svc) == retries(a, svc) + retries(b, svc),
    decreases b.len(),
{
    if b.len() == 0 {
        assert(a + b =~= a);
    } else {
        lemma_retries_add(a, b.drop_last(), svc);
        assert((a + b).drop_last() =~= a + b.drop_last());
    }
}

/// The retries in a list of at most six effects, place by place.
proof fn lemma_retries_few(effects: Seq<EffectView>, svc: Service)
    requires
        effects.len() <= 6,
    ensures
        retries(effects, svc) == (if effects.len() > 0 { planned(effects[0], svc) } else { 0 })
            + (if effects.len() > 1 { planned(effects[1], svc) } else { 0 })
            + (if effects.len() > 2 { planned(effects[2], svc) } else { 0 })
            + (if effects.len() > 3 { planned(effects[3], svc) } else { 0 })
            + (if effects.len() > 4 { planned(effects[4], svc) } else { 0 })
            + (if effects.len() > 5 { planned(effects[5], svc) } else { 0 }),
    decreases effects.len(),
{
    if effects.len() > 0 {
        lemma_retries_few(effects.drop_last(), svc);
    }
}

proof fn lemma_step_retries(svc: Service, status: StatusView, event: Event, other: Service)
    requires
        event.service() == Some(svc),
        status.retry_count <= MAX_RETRIES,
    ensures
        other != svc ==> retries(service_step(svc, status, event).1, other) == 0,
        !(event is StartService) && !(event is RestartService) && !(event is ProcessReady) && !(
        event is ProcessExit && status.state is Stopping) ==> service_step(
            svc,
            status,
            event,
        ).0.retry_count == status.retry_count + retries(service_step(svc, status, event).1, svc),
{
    lemma_retries_few(service_step(svc, status, event).1, svc);
    lemma_retries_few(service_step(svc, status, event).1, other);
}

proof fn lemma_shutdown_retries(state: AppView, svc: Service)
    ensures
        retries(shut_down(state).1, svc) == 0,
{
    reveal_with_fuel(retries, 3);
    let a = on_shutdown(Service::Apache, state.apache).1;
    let b = on_shutdown(Service::Mysql, state.mysql).1;
    let c = on_shutdown(Service::Php, state.php).1;
    lemma_retries_add(a, b, svc);
    lemma_retries_add(a + b, c, svc);
    let line = EffectView::LogEvent("shutting down all services"@);
    lemma_retries_push(a + b + c, line, svc);
    lemma_retries_push((a + b + c).push(line), EffectView::PersistDesiredState, svc);
}

/// Between two events that give a service its retries back, a crashed service
/// is retried at most as often as allowed: there is no endless loop of crashes
/// and retries.
pub proof fn law_retries_are_bounded(state: AppView, events: Seq<Event>, svc: Service)
    requires
        state.wf(),
        no_resets(state, events, svc),
    ensures
        run(state, events).0.wf(),
        run(state, events).0.of(svc).retry_count == state.of(svc).retry_count + retries(
            run(state, events).1,
            svc,
        ),
        retries(run(state, events).1, svc) <= MAX_RETRIES,
    decreases events.len(),
{
    reveal_with_fuel(retries, 2);
    lemma_wf_of(state);
    if events.len() > 0 {
        let earlier = events.drop_last();
        assert(no_resets(state, earlier, svc)) by {
            assert forall|i: int| 0 <= i < earlier.len() implies !resets_retries(
                run(state, earlier.take(i)).0,
                #[trigger] earlier[i],
                svc,
            ) by {
                assert(earlier.take(i) =~= events.take(i));
                assert(events[i] == earlier[i]);
            }
        }
        law_retries_are_bounded(state, earlier, svc);
        let before = run(state, earlier);
        let event = events.last();
        assert(events.take(events.len() - 1) =~= earlier);
        assert(!resets_retries(before.0, event, svc)) by {
            assert(events[events.len() - 1] == event);
        }
        law_well_formedness_is_kept(before.0, event);
        lemma_wf_of(before.0);
        lemma_wf_of(run(state, events).0);
        let last = reduce(before.0, event);
        lemma_retries_add(before.1, last.1, svc);
        match event.service() {
            Some(subject) => {
                assert(before.0.of(subject).wf());
                lemma_step_retries(subject, before.0.of(subject), event, svc);
            },
            None => {
                lemma_shutdown_retries(before.0, svc);
            },
        }
        assert(run(state, events).0.of(svc).wf());
    }
}

// ---------------------------------------------------------------------------
// Scenarios of any length
// ---------------------------------------------------------------------------
/// A service that nobody wants stays down: unless it is started or restarted,
/// nothing starts it, and it stays unwanted.
pub proof fn law_unwanted_services_stay_down(state: AppView, events: Seq<Event>, svc: Service)
    requires
        state.of(svc).desired is Stopped,
        forall|i: int|
            0 <= i < events.len() ==> (#[trigger] events[i]) != Event::StartService(svc)
                && events[i] != Event::RestartService(svc),
    ensures
        run(state, events).0.of(svc).desired is Stopped,
        !run(state, events).1.contains(EffectView::SpawnService(svc)),
    decreases events.len(),
{
    if events.len() > 0 {
        let earlier = events.drop_last();
        assert forall|i: int| 0 <= i < earlier.len() implies (#[trigger] earlier[i])
            != Event::StartService(svc) && earlier[i] != Event::RestartService(svc) by {
            assert(events[i] == earlier[i]);
        }
        law_unwanted_services_stay_down(state, earlier, svc);
        let before = run(state, earlier);
        let event = events.last();
        assert(events[events.len() - 1] == event);
        law_spawned_when_starting(before.0, event, svc);
        vstd::seq_lib::lemma_seq_concat_contains_all_elements(
            before.1,
            reduce(before.0, event).1,
            EffectView::SpawnService(svc),
        );
    }
}

/// After a shutdown no service runs or starts, and none is wanted.
pub proof fn law_shutdown_stops_everything(state: AppView, svc: Service)
    ensures
        ({
            let after = reduce(state, Event::ShutdownAll).0.of(svc);
            &&& after.desired is Stopped
            &&& !(after.state is Running)
            &&& !(after.state is Starting)
        }),
        state.of(svc).state is Running || state.of(svc).state is Starting ==> reduce(
            state,
            Event::ShutdownAll,
        ).1.contains(EffectView::KillService(svc)) && reduce(state, Event::ShutdownAll).0.of(
            svc,
        ).state is Stopping,
{
    lemma_all_shutdown_effects(state, EffectView::KillService(svc));
}

/// A restart of a service that runs kills its process; once that is gone, the
/// service starts again.
pub proof fn law_restart_brings_the_service_back(
    state: AppView,
    svc: Service,
    exit_code: Option<i32>,
)
    requires
        state.of(svc).state is Running || state.of(svc).state is Starting,
    ensures
        ({
            let killed = reduce(state, Event::RestartService(svc));
            let back = reduce(killed.0, Event::ProcessExit { service: svc, exit_code });
            &&& killed.0.of(svc).state is Stopping
            &&& killed.1.contains(EffectView::KillService(svc))
            &&& back.0.of(svc).state is Starting
            &&& back.0.of(svc).retry_count == 0
            &&& back.1.contains(EffectView::SpawnService(svc))
        }),
{
    let event = Event::RestartService(svc);
    let gone = Event::ProcessExit { service: svc, exit_code };
    law_killed_when_stopping(state, event, svc);
    law_spawned_when_starting(reduce(state, event).0, gone, svc);
}

/// A service that crashes and is retried, `rounds` times in a row.
pub open spec fn crash_loop(
    state: AppView,
    svc: Service,
    exit_code: Option<i32>,
    rounds: nat,
) -> AppView
    decreases rounds,
{
    if rounds == 0 {
        state
    } else {
        let before = crash_loop(state, svc, exit_code, (rounds - 1) as nat);
        let crashed = reduce(before, Event::ProcessExit { service: svc, exit_code }).0;
        reduce(crashed, Event::AutoRetry(svc)).0
    }
}

/// A service that keeps crashing is brought back as long as it has retries left;
/// after the last of them it ends in `Error` and stays there.
pub proof fn law_crash_loop_ends_in_error(
    state: AppView,
    svc: Service,
    exit_code: Option<i32>,
    rounds: nat,
)
    requires
        state.of(svc).state is Starting || state.of(svc).state is Running,
        state.of(svc).desired is Running,
        state.of(svc).retry_count <= MAX_RETRIES,
        rounds > 0,
    ensures
        ({
            let after = crash_loop(state, svc, exit_code, rounds).of(svc);
            &&& after.desired is Running
            &&& if state.of(svc).retry_count + rounds <= MAX_RETRIES {
                after.state is Starting && after.retry_count == state.of(svc).retry_count + rounds
            } else {
                after.state is Error && after.retry_count == MAX_RETRIES
            }
        }),
    decreases rounds,
{
    reveal_with_fuel(crash_loop, 2);
    if rounds > 1 {
        law_crash_loop_ends_in_error(state, svc, exit_code, (rounds - 1) as nat);
    }
}

/// As many failed health checks in a row.
pub open spec fn failing_checks(state: AppView, svc: Service, count: nat) -> AppView
    decreases count,
{
    if count == 0 {
        state
    } else {
        reduce(
            failing_checks(state, svc, (count - 1) as nat),
            Event::HealthCheckFail(svc),
        ).0
    }
}

/// After a passed health check, a running service survives fewer failed checks
/// in a row than the threshold, and not as many.
pub proof fn law_failed_checks_in_a_row_crash(state: AppView, svc: Service, count: nat)
    requires
        state.of(svc).state is Running,
        count <= HEALTH_FAIL_THRESHOLD,
    ensures
        ({
            let passed = reduce(state, Event::HealthCheckPass(svc)).0;
            let after = failing_checks(passed, svc, count).of(svc);
            &&& after.health_fail_streak == count
            &&& after.state is Running <==> count < HEALTH_FAIL_THRESHOLD
            &&& after.desired == state.of(svc).desired
            &&& count < HEALTH_FAIL_THRESHOLD ==> after.retry_count == state.of(svc).retry_count
            &&& count == HEALTH_FAIL_THRESHOLD ==> if state.of(svc).desired is Running
                && state.of(svc).retry_count >= MAX_RETRIES {
                after.state is Error
            } else {
                after.state is Crashed
            }
        }),
    decreases count,
{
    reveal_with_fuel(failing_checks, 2);
    if count > 0 {
        law_failed_checks_in_a_row_crash(state, svc, (count - 1) as nat);
    }
}

} // verus!
