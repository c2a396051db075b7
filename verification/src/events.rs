//! What can happen, and what has to be done about it.

use crate::state::Service;
use vstd::prelude::*;

verus! {

/// Everything that changes the state begins with one of these. Events are
/// processed one at a time, in the order of their arrival.
#[derive(Debug, Clone)]
pub enum Event {
    // Commands of the user
    StartService(Service),
    StopService(Service),
    RestartService(Service),
    // Signals of a process
    ProcessExit { service: Service, exit_code: Option<i32> },
    ProcessReady(Service),
    ProcessSpawnFailed { service: Service, reason: String },
    // Results of health checks
    HealthCheckPass(Service),
    HealthCheckFail(Service),
    // Ports
    PortConflictDetected(Service),
    // Configuration
    ConfigReloaded,
    // Internal
    FatalError { service: Service, reason: String },
    AutoRetry(Service),
    Tick,
    // Shutdown
    ShutdownAll,
}

impl Event {
    /// The service that an event is about, if it is about a single one.
    pub open spec fn service(self) -> Option<Service> {
        match self {
            Event::StartService(svc) => Some(svc),
            Event::StopService(svc) => Some(svc),
            Event::RestartService(svc) => Some(svc),
            Event::ProcessExit { service, .. } => Some(service),
            Event::ProcessReady(svc) => Some(svc),
            Event::ProcessSpawnFailed { service, .. } => Some(service),
            Event::HealthCheckPass(svc) => Some(svc),
            Event::HealthCheckFail(svc) => Some(svc),
            Event::PortConflictDetected(svc) => Some(svc),
            Event::FatalError { service, .. } => Some(service),
            Event::AutoRetry(svc) => Some(svc),
            Event::ConfigReloaded | Event::Tick | Event::ShutdownAll => None,
        }
    }

    pub fn subject(&self) -> (svc: Option<Service>)
        ensures
            svc == self.service(),
    {
        match self {
            Event::StartService(svc) => Some(*svc),
            Event::StopService(svc) => Some(*svc),
            Event::RestartService(svc) => Some(*svc),
            Event::ProcessExit { service, .. } => Some(*service),
            Event::ProcessReady(svc) => Some(*svc),
            Event::ProcessSpawnFailed { service, .. } => Some(*service),
            Event::HealthCheckPass(svc) => Some(*svc),
            Event::HealthCheckFail(svc) => Some(*svc),
            Event::PortConflictDetected(svc) => Some(*svc),
            Event::FatalError { service, .. } => Some(*service),
            Event::AutoRetry(svc) => Some(*svc),
            Event::ConfigReloaded | Event::Tick | Event::ShutdownAll => None,
        }
    }
}

/// What the reducer asks for. It is done after the state has changed, and never
/// changes the state itself: its results come back as events.
#[derive(Debug)]
pub enum SideEffect {
    SpawnService(Service),
    KillService(Service),
    /// Try the service again after a pause, given in seconds.
    ScheduleRetry { service: Service, delay: u64 },
    StartReadinessCheck(Service),
    StopHealthCheck(Service),
    LogEvent(String),
    PersistDesiredState,
}

/// The value of a `SideEffect`.
pub enum EffectView {
    SpawnService(Service),
    KillService(Service),
    ScheduleRetry { service: Service, delay: u64 },
    StartReadinessCheck(Service),
    StopHealthCheck(Service),
    LogEvent(Seq<char>),
    PersistDesiredState,
}

impl View for SideEffect {
    type V = EffectView;

    open spec fn view(&self) -> EffectView {
        match *self {
            SideEffect::SpawnService(svc) => EffectView::SpawnService(svc),
            SideEffect::KillService(svc) => EffectView::KillService(svc),
            SideEffect::ScheduleRetry { service, delay } => EffectView::ScheduleRetry {
                service,
                delay,
            },
            SideEffect::StartReadinessCheck(svc) => EffectView::StartReadinessCheck(svc),
            SideEffect::StopHealthCheck(svc) => EffectView::StopHealthCheck(svc),
            SideEffect::LogEvent(line) => EffectView::LogEvent(line@),
            SideEffect::PersistDesiredState => EffectView::PersistDesiredState,
        }
    }
}

/// The values of a list of effects, in order.
pub open spec fn effects_view(effects: Seq<SideEffect>) -> Seq<EffectView> {
    effects.map_values(|effect: SideEffect| effect@)
}

/// Every event about a service says which one it is about; the others are about
/// none.
pub proof fn law_subjects(svc: Service, exit_code: Option<i32>, reason: String)
    ensures
        Event::StartService(svc).service() == Some(svc),
        Event::StopService(svc).service() == Some(svc),
        Event::RestartService(svc).service() == Some(svc),
        (Event::ProcessExit { service: svc, exit_code }).service() == Some(svc),
        Event::ProcessReady(svc).service() == Some(svc),
        (Event::ProcessSpawnFailed { service: svc, reason }).service() == Some(svc),
        Event::HealthCheckPass(svc).service() == Some(svc),
        Event::HealthCheckFail(svc).service() == Some(svc),
        Event::PortConflictDetected(svc).service() == Some(svc),
        (Event::FatalError { service: svc, reason }).service() == Some(svc),
        Event::AutoRetry(svc).service() == Some(svc),
        Event::ConfigReloaded.service() is None,
        Event::Tick.service() is None,
        Event::ShutdownAll.service() is None,
{
}

} // verus!
