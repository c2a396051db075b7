//! The event loop and what the user sees of it.

use ramp::config::{validate_and_build, TomlApache, TomlMysql, TomlPhp, TomlRoot};
use ramp::events::{Event, SideEffect};
use ramp::session::{
    boot_events, debounce_key, initial_state, load_persisted_state, may_exit, Debouncer, Session, Turn,
};
use ramp::state::{
    retry_delay, AppState, DesiredServiceState, PersistedState, PortState, RampConfig, Service,
    ServiceState, ServiceStatus, COMMAND_DEBOUNCE, HEALTH_CHECK_INTERVAL, SHUTDOWN_GRACE_PERIOD,
};
use ramp::ui::{service_row, start_all, state_indicator, stop_all, Light};

fn config() -> RampConfig {
    let doc = TomlRoot {
        install_dir: String::from("C:\\ramp"),
        apache: TomlApache { port: 80 },
        mysql: TomlMysql { port: 3306 },
        php: TomlPhp { port: 9000 },
    };
    validate_and_build(doc, "C:\\ramp").unwrap()
}

fn wanted(apache: bool, mysql: bool, php: bool) -> PersistedState {
    let desired = |on: bool| {
        if on {
            DesiredServiceState::Running
        } else {
            DesiredServiceState::Stopped
        }
    };
    PersistedState {
        apache_desired: desired(apache),
        mysql_desired: desired(mysql),
        php_desired: desired(php),
    }
}

fn shown(events: &[Event]) -> Vec<String> {
    events.iter().map(|event| format!("{event:?}")).collect()
}

#[test]
fn commands_have_keys() {
    let key = |event: Event| debounce_key(&event);
    assert_eq!(key(Event::StartService(Service::Apache)), Some(String::from("start:Apache")));
    assert_eq!(key(Event::StopService(Service::Mysql)), Some(String::from("stop:MySQL")));
    assert_eq!(key(Event::RestartService(Service::Php)), Some(String::from("restart:PHP")));
    assert_eq!(key(Event::ProcessReady(Service::Apache)), None);
    assert_eq!(key(Event::ShutdownAll), None);
}

#[test]
fn repeated_commands_are_held_back() {
    let mut debouncer = Debouncer::new();
    let start = Event::StartService(Service::Apache);
    assert!(debouncer.accept(&start, 1_000));
    assert!(!debouncer.accept(&start, 1_000 + COMMAND_DEBOUNCE - 1));
    assert!(debouncer.accept(&start, 1_000 + COMMAND_DEBOUNCE));
    assert!(!debouncer.accept(&start, 0));
}

#[test]
fn held_back_commands_do_not_prolong_the_pause() {
    let mut debouncer = Debouncer::new();
    let stop = Event::StopService(Service::Php);
    assert!(debouncer.accept(&stop, 0));
    assert!(!debouncer.accept(&stop, 300_000_000));
    assert!(debouncer.accept(&stop, 500_000_000));
}

#[test]
fn other_commands_are_not_held_back() {
    let mut debouncer = Debouncer::new();
    assert!(debouncer.accept(&Event::StartService(Service::Apache), 0));
    assert!(debouncer.accept(&Event::StartService(Service::Mysql), 1));
    assert!(debouncer.accept(&Event::StopService(Service::Apache), 2));
    for _ in 0..3 {
        assert!(debouncer.accept(&Event::HealthCheckPass(Service::Apache), 3));
        assert!(debouncer.accept(&Event::ShutdownAll, 3));
    }
    assert!(!debouncer.accept(&Event::StartService(Service::Mysql), 4));
}

#[test]
fn what_was_wanted_is_started_at_boot() {
    let state = initial_state(config(), wanted(true, false, true));
    assert_eq!(state.apache.state, ServiceState::Stopped);
    assert_eq!(state.php.desired, DesiredServiceState::Running);
    assert_eq!(shown(&boot_events(&state)), vec!["StartService(Apache)", "StartService(Php)"]);
    let state = initial_state(config(), load_persisted_state(None));
    assert!(boot_events(&state).is_empty());
    let kept = wanted(false, true, false);
    assert_eq!(load_persisted_state(Some(kept)), kept);
}

#[test]
fn wishes_survive_a_restart() {
    let state = initial_state(config(), wanted(false, true, true));
    let kept = PersistedState::of_state(&state);
    assert_eq!(kept, wanted(false, true, true));
    let again = initial_state(config(), kept);
    assert_eq!(shown(&boot_events(&again)), shown(&boot_events(&state)));
}

#[test]
fn health_is_checked_once_a_service_runs() {
    let session = Session::new(initial_state(config(), wanted(false, false, false)));
    let (session, turn) = session.handle(Event::StartService(Service::Php), 0);
    match turn {
        Turn::Applied { health, effects } => {
            assert!(health.is_empty());
            assert!(effects
                .iter()
                .any(|e| matches!(e, SideEffect::SpawnService(Service::Php))));
        }
        other => panic!("{other:?}"),
    }
    let (session, turn) = session.handle(Event::StartService(Service::Php), 1);
    assert!(matches!(turn, Turn::Debounced));
    assert_eq!(session.state.php.state, ServiceState::Starting);
    let (session, turn) = session.handle(Event::ProcessReady(Service::Php), 2);
    match turn {
        Turn::Applied { health, .. } => assert_eq!(health, vec![Service::Php]),
        other => panic!("{other:?}"),
    }
    let (_, turn) = session.handle(Event::HealthCheckPass(Service::Php), 3);
    match turn {
        Turn::Applied { health, .. } => assert!(health.is_empty()),
        other => panic!("{other:?}"),
    }
}

#[test]
fn the_program_ends_when_all_services_are_down() {
    let mut state = AppState::new(config());
    assert!(may_exit(&state, 0));
    state.php.state = ServiceState::Crashed;
    state.mysql.state = ServiceState::Error;
    assert!(may_exit(&state, 0));
    for busy in [ServiceState::Starting, ServiceState::Running, ServiceState::Stopping] {
        state.apache.state = busy;
        assert!(!may_exit(&state, 9_999));
        assert!(may_exit(&state, 10_000));
    }
}

#[test]
fn states_have_lights() {
    assert_eq!(state_indicator(ServiceState::Running), (Light::Green, "Running"));
    assert_eq!(state_indicator(ServiceState::Starting), (Light::Yellow, "…"));
    assert_eq!(state_indicator(ServiceState::Stopping), (Light::Yellow, "…"));
    assert_eq!(state_indicator(ServiceState::Crashed), (Light::Red, "!"));
    assert_eq!(state_indicator(ServiceState::Error), (Light::Red, "!"));
    assert_eq!(state_indicator(ServiceState::Stopped), (Light::Gray, "Stopped"));
}

#[test]
fn rows_show_the_last_error() {
    let mut status = ServiceStatus::new();
    let row = service_row(Service::Mysql, &status);
    assert_eq!((row.name.as_str(), row.state.as_str()), ("MySQL", "[Stopped]"));
    assert_eq!(row.light, Light::Gray);
    assert_eq!(row.error, None);
    status.state = ServiceState::Error;
    status.last_error = Some(String::from("port already in use"));
    let row = service_row(Service::Mysql, &status);
    assert_eq!(row.state, "[Error]");
    assert_eq!(row.error.as_deref(), Some("⚠ port already in use"));
}

#[test]
fn all_services_are_started_and_stopped_in_order() {
    assert_eq!(
        shown(&start_all()),
        vec!["StartService(Apache)", "StartService(Mysql)", "StartService(Php)"]
    );
    assert_eq!(
        shown(&stop_all()),
        vec!["StopService(Apache)", "StopService(Mysql)", "StopService(Php)"]
    );
}

#[test]
fn retries_back_off() {
    let delays: Vec<Option<u64>> = (0..6).map(retry_delay).collect();
    assert_eq!(delays, vec![Some(1), Some(2), Some(4), Some(8), None, None]);
}

#[test]
fn a_new_state_is_stopped() {
    let mut state = AppState::new(config());
    assert_eq!(state.ports, PortState::new());
    assert!(!state.ports.apache_bound && !state.ports.mysql_bound && !state.ports.php_bound);
    for svc in [Service::Apache, Service::Mysql, Service::Php] {
        assert_eq!(state.service(svc).state, ServiceState::Stopped);
        state.service_mut(svc).retry_count = 1;
        assert_eq!(state.service(svc).retry_count, 1);
    }
    assert_eq!(PersistedState::default_stopped(), wanted(false, false, false));
    assert_eq!((HEALTH_CHECK_INTERVAL, SHUTDOWN_GRACE_PERIOD), (2000, 5000));
}
