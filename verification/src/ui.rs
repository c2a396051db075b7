//! What the user sees of a service, and the commands that concern all of them.

use crate::events::Event;
use crate::state::{Service, ServiceState, ServiceStatus};
use vstd::prelude::*;
use vstd::string::StringExecFns;

verus! {

/// The colour of the dot in front of a service.
#[derive(Debug, Clone, Copy, PartialEq, Eq, Structural)]
pub enum Light {
    Green,
    Yellow,
    Red,
    Gray,
}

/// Colour and short text for a state.
pub fn state_indicator(state: ServiceState) -> (indicator: (Light, &'static str))
    ensures
        indicator.0 == (match state {
            ServiceState::Running => Light::Green,
            ServiceState::Starting | ServiceState::Stopping => Light::Yellow,
            ServiceState::Crashed | ServiceState::Error => Light::Red,
            ServiceState::Stopped => Light::Gray,
        }),
        indicator.1@ == (match state {
            ServiceState::Running => "Running"@,
            ServiceState::Starting | ServiceState::Stopping => "…"@,
            ServiceState::Crashed | ServiceState::Error => "!"@,
            ServiceState::Stopped => "Stopped"@,
        }),
{
    match state {
        ServiceState::Running => (Light::Green, "Running"),
        ServiceState::Starting | ServiceState::Stopping => (Light::Yellow, "…"),
        ServiceState::Crashed | ServiceState::Error => (Light::Red, "!"),
        ServiceState::Stopped => (Light::Gray, "Stopped"),
    }
}

/// The texts in the row of a service.
#[derive(Debug)]
pub struct ServiceRow {
    pub light: Light,
    pub name: String,
    pub state: String,
    pub error: Option<String>,
}

/// What the row of a service shows: its name, its state in brackets and, if
/// there is one, its last error.
pub fn service_row(svc: Service, status: &ServiceStatus) -> (row: ServiceRow)
    ensures
        row.light == (match status.state {
            ServiceState::Running => Light::Green,
            ServiceState::Starting | ServiceState::Stopping => Light::Yellow,
            ServiceState::Crashed | ServiceState::Error => Light::Red,
            ServiceState::Stopped => Light::Gray,
        }),
        row.name@ == svc.name(),
        row.state@ == "["@ + status.state.name() + "]"@,
        match (status@.last_error, row.error) {
            (Some(error), Some(shown)) => shown@ == "⚠ "@ + error,
            (None, None) => true,
            _ => false,
        },
{
    let error = match &status.last_error {
        Some(error) => Some("⚠ ".to_string().concat(error.as_str())),
        None => None,
    };
    ServiceRow {
        light: state_indicator(status.state).0,
        name: svc.label().to_string(),
        state: "[".to_string().concat(status.state.label()).concat("]"),
        error,
    }
}

/// The commands that start everything.
pub fn start_all() -> (events: Vec<Event>)
    ensures
        events@ == seq![
            Event::StartService(Service::Apache),
            Event::StartService(Service::Mysql),
            Event::StartService(Service::Php),
        ],
{
    let mut events: Vec<Event> = Vec::new();
    events.push(Event::StartService(Service::Apache));
    events.push(Event::StartService(Service::Mysql));
    events.push(Event::StartService(Service::Php));
    events
}

/// The commands that stop everything.
pub fn stop_all() -> (events: Vec<Event>)
    ensures
        events@ == seq![
            Event::StopService(Service::Apache),
            Event::StopService(Service::Mysql),
            Event::StopService(Service::Php),
        ],
{
    let mut events: Vec<Event> = Vec::new();
    events.push(Event::StopService(Service::Apache));
    events.push(Event::StopService(Service::Mysql));
    events.push(Event::StopService(Service::Php));
    events
}

} // verus!
