//! From effects to actions: which threads and processes there are, and what has
//! to be done with them.

use crate::events::{EffectView, Event, SideEffect};
use crate::health::{patience, ready_timeout};
use crate::laws::law_killed_when_stopping;
use crate::reducer::reduce;
use crate::state::{AppState, AppView, PersistedState, RampConfig, Service, ServiceState};
use vstd::prelude::*;

verus! {

/// Something to do outside: with the system, the network, the file system or
/// the clock.
#[derive(Debug)]
pub enum Action {
    /// Check whether the service can be launched, and tell `Executor::checked`.
    Check(Service),
    /// See whether the port is free, and tell `Executor::port_probed`.
    ProbePort { service: Service, port: u16 },
    /// Launch the service, and tell `Executor::launched`.
    Launch(Service),
    /// Watch the process that has just been launched.
    Watch(Service),
    /// Tell the watcher of the process that the service is being shut down, so
    /// that the process is asked to stop.
    SignalStop(Service),
    /// Tell the watcher of the process that the process is given up, so that it
    /// is killed.
    SignalKill(Service),
    /// Wait until the service is ready, but no longer than this many
    /// milliseconds.
    PollReadiness { service: Service, port: u16, timeout: u64 },
    /// Check the health of the service from time to time.
    CheckHealth { service: Service, port: u16 },
    /// Tell the health checker of the service to end.
    SignalHealthStop(Service),
    /// Emit `Event::AutoRetry` after this many seconds.
    RetryLater { service: Service, delay: u64 },
    /// Write a line to the log.
    Log(String),
    /// Write down what is wanted.
    Persist(PersistedState),
    /// Emit an event.
    Emit(Event),
}

/// The threads that there are for a service.
#[derive(Debug, Clone, Copy, PartialEq, Eq, Structural)]
pub struct ServiceHandles {
    /// There is a health checker.
    pub health: bool,
}

/// Turns effects into actions. It knows for which services there are processes
/// and health checkers.
#[derive(Debug)]
pub struct Executor {
    config: RampConfig,
    apache: Option<ServiceHandles>,
    mysql: Option<ServiceHandles>,
    php: Option<ServiceHandles>,
}

/// How the health checker of a service is ended, if there is one.
pub open spec fn health_stop(svc: Service, handles: Option<ServiceHandles>) -> Seq<Action> {
    match handles {
        Some(h) if h.health => seq![Action::SignalHealthStop(svc)],
        _ => seq![],
    }
}

/// How everything that there is for a service is ended: gently if the service is
/// shut down.
pub open spec fn teardown(
    svc: Service,
    handles: Option<ServiceHandles>,
    shutdown: bool,
) -> Seq<Action> {
    match handles {
        Some(_) => health_stop(svc, handles).push(
            if shutdown {
                Action::SignalStop(svc)
            } else {
                Action::SignalKill(svc)
            },
        ),
        None => seq![],
    }
}

/// The same handles without a health checker.
pub open spec fn unchecked(handles: Option<ServiceHandles>) -> Option<ServiceHandles> {
    match handles {
        Some(_) => Some(ServiceHandles { health: false }),
        None => None,
    }
}

impl Executor {
    /// What there is for a service.
    pub closed spec fn handles(self, svc: Service) -> Option<ServiceHandles> {
        match svc {
            Service::Apache => self.apache,
            Service::Mysql => self.mysql,
            Service::Php => self.php,
        }
    }

    /// The configuration that the executor works with.
    pub closed spec fn configuration(self) -> RampConfig {
        self.config
    }

    /// Nothing but the handles of one service has changed.
    pub open spec fn same_but(self, before: Executor, svc: Service) -> bool {
        &&& self.configuration() == before.configuration()
        &&& forall|other: Service|
            other != svc ==> #[trigger] self.handles(other) == before.handles(other)
    }

    pub fn new(config: RampConfig) -> (executor: Self)
        ensures
            executor.configuration() == config,
            forall|svc: Service| #[trigger] executor.handles(svc) is None,
    {
        Executor { config, apache: None, mysql: None, php: None }
    }

    fn get(&self, svc: Service) -> (handles: Option<ServiceHandles>)
        ensures
            handles == self.handles(svc),
    {
        match svc {
            Service::Apache => self.apache,
            Service::Mysql => self.mysql,
            Service::Php => self.php,
        }
    }

    fn set(&mut self, svc: Service, handles: Option<ServiceHandles>)
        ensures
            final(self).handles(svc) == handles,
            final(self).same_but(*old(self), svc),
    {
        match svc {
            Service::Apache => {
                self.apache = handles;
            },
            Service::Mysql => {
                self.mysql = handles;
            },
            Service::Php => {
                self.php = handles;
            },
        }
    }

    /// What has to be done for an effect, in this order. `state` is the state
    /// that the effect belongs to.
    pub fn execute(&mut self, effect: SideEffect, state: &AppState) -> (actions: Vec<Action>)
        ensures
            match effect {
                SideEffect::SpawnService(svc) => {
                    &&& actions@ == seq![Action::Check(svc)]
                    &&& *final(self) == *old(self)
                },
                SideEffect::KillService(svc) => {
                    &&& actions@ == teardown(
                        svc,
                        old(self).handles(svc),
                        state@.of(svc).state is Stopping,
                    )
                    &&& final(self).handles(svc) is None
                    &&& final(self).same_but(*old(self), svc)
                },
                SideEffect::StartReadinessCheck(svc) => {
                    &&& actions@ == seq![
                        Action::PollReadiness {
                            service: svc,
                            port: old(self).configuration().port_of(svc),
                            timeout: patience(svc),
                        },
                    ]
                    &&& *final(self) == *old(self)
                },
                SideEffect::StopHealthCheck(svc) => {
                    &&& actions@ == health_stop(svc, old(self).handles(svc))
                    &&& final(self).handles(svc) == unchecked(old(self).handles(svc))
                    &&& final(self).same_but(*old(self), svc)
                },
                SideEffect::ScheduleRetry { service, delay } => {
                    &&& actions@ == seq![Action::RetryLater { service, delay }]
                    &&& *final(self) == *old(self)
                },
                SideEffect::LogEvent(line) => {
                    &&& actions@ == seq![Action::Log(line)]
                    &&& *final(self) == *old(self)
                },
                SideEffect::PersistDesiredState => {
                    &&& actions@ == seq![Action::Persist(PersistedState::kept(state@))]
                    &&& *final(self) == *old(self)
                },
            },
    {
        let mut actions: Vec<Action> = Vec::new();
        match effect {
            SideEffect::SpawnService(svc) => {
                actions.push(Action::Check(svc));
            },
            SideEffect::KillService(svc) => {
                let shutdown = state.service(svc).state == ServiceState::Stopping;
                self.kill(svc, shutdown, &mut actions);
            },
            SideEffect::StartReadinessCheck(svc) => {
                actions.push(
                    Action::PollReadiness {
                        service: svc,
                        port: self.config.port(svc),
                        timeout: ready_timeout(svc),
                    },
                );
            },
            SideEffect::StopHealthCheck(svc) => {
                self.stop_health(svc, &mut actions);
            },
            SideEffect::ScheduleRetry { service, delay } => {
                actions.push(Action::RetryLater { service, delay });
            },
            SideEffect::LogEvent(line) => {
                actions.push(Action::Log(line));
            },
            SideEffect::PersistDesiredState => {
                actions.push(Action::Persist(PersistedState::of_state(state)));
            },
        }
        actions
    }

    /// What has to be done after a service has been checked. Its port is looked at
    /// only if it can be launched.
    pub fn checked(&mut self, svc: Service, outcome: Result<(), String>) -> (actions: Vec<Action>)
        ensures
            *final(self) == *old(self),
            match outcome {
                Ok(_) => actions@ == seq![
                    Action::ProbePort {
                        service: svc,
                        port: old(self).configuration().port_of(svc),
                    },
                ],
                Err(reason) => actions@ == seq![
                    Action::Emit(Event::ProcessSpawnFailed { service: svc, reason }),
                ],
            },
    {
        let mut actions: Vec<Action> = Vec::new();
        match outcome {
            Ok(_) => {
                actions.push(Action::ProbePort { service: svc, port: self.config.port(svc) });
            },
            Err(reason) => {
                actions.push(Action::Emit(Event::ProcessSpawnFailed { service: svc, reason }));
            },
        }
        actions
    }

    /// What has to be done once it is known whether the port of a service is
    /// free. If it is, whatever there still is for the service goes first.
    pub fn port_probed(&mut self, svc: Service, available: bool) -> (actions: Vec<Action>)
        ensures
            available ==> {
                &&& actions@ == teardown(svc, old(self).handles(svc), false).push(
                    Action::Launch(svc),
                )
                &&& final(self).handles(svc) is None
                &&& final(self).same_but(*old(self), svc)
            },
            !available ==> {
                &&& actions@ == seq![Action::Emit(Event::PortConflictDetected(svc))]
                &&& *final(self) == *old(self)
            },
    {
        let mut actions: Vec<Action> = Vec::new();
        if available {
            self.kill(svc, false, &mut actions);
            actions.push(Action::Launch(svc));
        } else {
            actions.push(Action::Emit(Event::PortConflictDetected(svc)));
        }
        actions
    }

    /// What has to be done after a launch, successful or not.
    pub fn launched(&mut self, svc: Service, outcome: Result<(), String>) -> (actions: Vec<Action>)
        ensures
            match outcome {
                Ok(_) => {
                    &&& actions@ == seq![Action::Watch(svc)]
                    &&& final(self).handles(svc) == Some(ServiceHandles { health: false })
                    &&& final(self).same_but(*old(self), svc)
                },
                Err(reason) => {
                    &&& actions@ == seq![
                        Action::Emit(Event::ProcessSpawnFailed { service: svc, reason }),
                    ]
                    &&& *final(self) == *old(self)
                },
            },
    {
        let mut actions: Vec<Action> = Vec::new();
        match outcome {
            Ok(_) => {
                self.set(svc, Some(ServiceHandles { health: false }));
                actions.push(Action::Watch(svc));
            },
            Err(reason) => {
                actions.push(Action::Emit(Event::ProcessSpawnFailed { service: svc, reason }));
            },
        }
        actions
    }

    /// What has to be done when a service has just become ready: its health is
    /// checked from now on, by one checker.
    pub fn start_health_check(&mut self, svc: Service) -> (actions: Vec<Action>)
        ensures
            actions@ == health_stop(svc, old(self).handles(svc)).push(
                Action::CheckHealth {
                    service: svc,
                    port: old(self).configuration().port_of(svc),
                },
            ),
            final(self).handles(svc) == Some(ServiceHandles { health: true }),
            final(self).same_but(*old(self), svc),
    {
        let mut actions: Vec<Action> = Vec::new();
        self.stop_health(svc, &mut actions);
        self.set(svc, Some(ServiceHandles { health: true }));
        actions.push(Action::CheckHealth { service: svc, port: self.config.port(svc) });
        actions
    }

    fn stop_health(&mut self, svc: Service, actions: &mut Vec<Action>)
        requires
            old(actions)@.len() == 0,
        ensures
            final(actions)@ == health_stop(svc, old(self).handles(svc)),
            final(self).handles(svc) == unchecked(old(self).handles(svc)),
            final(self).same_but(*old(self), svc),
    {
        if let Some(h) = self.get(svc) {
            if h.health {
                actions.push(Action::SignalHealthStop(svc));
            }
            self.set(svc, Some(ServiceHandles { health: false }));
        }
    }

    fn kill(&mut self, svc: Service, shutdown: bool, actions: &mut Vec<Action>)
        requires
            old(actions)@.len() == 0,
        ensures
            final(actions)@ == teardown(svc, old(self).handles(svc), shutdown),
            final(self).handles(svc) is None,
            final(self).same_but(*old(self), svc),
    {
        self.stop_health(svc, actions);
        if self.get(svc).is_some() {
            self.set(svc, None);
            if shutdown {
                actions.push(Action::SignalStop(svc));
            } else {
                actions.push(Action::SignalKill(svc));
            }
        }
    }
}

/// Before a service is launched anew, its old process is killed and its health
/// checker ended; the launch comes last, and there is never more than one.
pub proof fn law_old_process_goes_first(svc: Service, handles: Option<ServiceHandles>)
    ensures
        ({
            let actions = teardown(svc, handles, false).push(Action::Launch(svc));
            &&& actions.last() == Action::Launch(svc)
            &&& forall|i: int|
                0 <= i < actions.len() - 1 ==> (#[trigger] actions[i]) == Action::SignalKill(svc)
                    || actions[i] == Action::SignalHealthStop(svc)
            &&& handles is Some <==> teardown(svc, handles, false).contains(
                Action::SignalKill(svc),
            )
        }),
{
    if handles is Some {
        let t = teardown(svc, handles, false);
        assert(t[t.len() - 1] == Action::SignalKill(svc));
    }
}

/// A service whose process is ended is being shut down, and its process is asked
/// to stop and not given up, unless it has crashed by failed health checks.
pub proof fn law_shutdowns_are_gentle(
    state: AppView,
    event: Event,
    svc: Service,
    handles: Option<ServiceHandles>,
)
    requires
        reduce(state, event).1.contains(EffectView::KillService(svc)),
        event != Event::HealthCheckFail(svc),
    ensures
        reduce(state, event).0.of(svc).state is Stopping,
        !teardown(svc, handles, true).contains(Action::SignalKill(svc)),
        handles is Some ==> teardown(svc, handles, true).last() == Action::SignalStop(svc),
{
    law_killed_when_stopping(state, event, svc);
}

/// What ends for a service when it is torn down: its health checker, if there is
/// one, and then its process, if there is one. The process is asked to stop in a
/// shutdown and given up otherwise, and nothing else happens.
pub proof fn law_teardown(svc: Service, handles: Option<ServiceHandles>, shutdown: bool)
    ensures
        match handles {
            None => teardown(svc, handles, shutdown).len() == 0 && health_stop(svc, handles).len()
                == 0,
            Some(h) => {
                let actions = teardown(svc, handles, shutdown);
                &&& actions.last() == (if shutdown {
                    Action::SignalStop(svc)
                } else {
                    Action::SignalKill(svc)
                })
                &&& actions.len() == (if h.health {
                    2nat
                } else {
                    1nat
                })
                &&& h.health ==> actions[0] == Action::SignalHealthStop(svc) && health_stop(
                    svc,
                    handles,
                ) == seq![Action::SignalHealthStop(svc)]
                &&& !h.health ==> health_stop(svc, handles).len() == 0
            },
        },
        unchecked(handles) is Some <==> handles is Some,
        unchecked(handles) matches Some(h) ==> !h.health,
{
}

} // verus!
