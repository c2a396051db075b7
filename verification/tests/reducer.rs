//! The state machine, one event at a time.

use ramp::events::{Event, SideEffect};
use ramp::reducer::reducer;
use ramp::state::{
    ApacheConfig, AppState, DesiredServiceState, MysqlConfig, PhpConfig, RampConfig, Service,
    ServiceState, HEALTH_FAIL_THRESHOLD, MAX_RETRIES,
};

fn make_state() -> AppState {
    let config = RampConfig {
        install_dir: String::from("C:\\ramp"),
        apache: ApacheConfig {
            port: 80,
            bin: String::from("C:\\ramp\\apache\\bin\\httpd.exe"),
            conf: String::from("C:\\ramp\\apache\\conf\\httpd.conf"),
        },
        mysql: MysqlConfig {
            port: 3306,
            bin: String::from("C:\\ramp\\mysql\\bin\\mysqld.exe"),
            data_dir: String::from("C:\\ramp\\mysql\\data"),
            ini: String::from("C:\\ramp\\mysql\\my.ini"),
        },
        php: PhpConfig {
            port: 9000,
            bin: String::from("C:\\ramp\\php\\php-cgi.exe"),
            ini: String::from("C:\\ramp\\php\\php.ini"),
        },
    };
    AppState::new(config)
}

fn set_state(state: &mut AppState, svc: Service, s: ServiceState) {
    state.service_mut(svc).state = s;
}

// Valid transitions

#[test]
fn stopped_start_transitions_to_starting() {
    let state = make_state();
    let (new_state, effects) = reducer(state, Event::StartService(Service::Apache));
    assert_eq!(new_state.apache.state, ServiceState::Starting);
    assert!(effects
        .iter()
        .any(|e| matches!(e, SideEffect::SpawnService(Service::Apache))));
}

#[test]
fn starting_process_ready_transitions_to_running() {
    let mut state = make_state();
    set_state(&mut state, Service::Apache, ServiceState::Starting);
    let (new_state, _) = reducer(state, Event::ProcessReady(Service::Apache));
    assert_eq!(new_state.apache.state, ServiceState::Running);
}

#[test]
fn running_stop_transitions_to_stopping() {
    let mut state = make_state();
    set_state(&mut state, Service::Apache, ServiceState::Running);
    let (new_state, effects) = reducer(state, Event::StopService(Service::Apache));
    assert_eq!(new_state.apache.state, ServiceState::Stopping);
    assert!(effects
        .iter()
        .any(|e| matches!(e, SideEffect::KillService(Service::Apache))));
}

#[test]
fn stopping_process_exit_transitions_to_stopped() {
    let mut state = make_state();
    set_state(&mut state, Service::Apache, ServiceState::Stopping);
    let (new_state, _) = reducer(
        state,
        Event::ProcessExit {
            service: Service::Apache,
            exit_code: Some(0),
        },
    );
    assert_eq!(new_state.apache.state, ServiceState::Stopped);
}

#[test]
fn running_process_exit_transitions_to_crashed() {
    let mut state = make_state();
    set_state(&mut state, Service::Apache, ServiceState::Running);
    let (new_state, _) = reducer(
        state,
        Event::ProcessExit {
            service: Service::Apache,
            exit_code: Some(1),
        },
    );
    assert_eq!(new_state.apache.state, ServiceState::Crashed);
}

#[test]
fn crashed_auto_retry_transitions_to_starting_when_desired_running() {
    let mut state = make_state();
    set_state(&mut state, Service::Apache, ServiceState::Crashed);
    state.apache.desired = DesiredServiceState::Running;
    let (new_state, effects) = reducer(state, Event::AutoRetry(Service::Apache));
    assert_eq!(new_state.apache.state, ServiceState::Starting);
    assert!(effects
        .iter()
        .any(|e| matches!(e, SideEffect::SpawnService(Service::Apache))));
}

#[test]
fn fatal_error_any_state_transitions_to_error() {
    for initial in [
        ServiceState::Stopped,
        ServiceState::Starting,
        ServiceState::Running,
        ServiceState::Stopping,
        ServiceState::Crashed,
    ] {
        let mut state = make_state();
        set_state(&mut state, Service::Apache, initial);
        let (new_state, _) = reducer(
            state,
            Event::FatalError {
                service: Service::Apache,
                reason: "test".into(),
            },
        );
        assert_eq!(
            new_state.apache.state,
            ServiceState::Error,
            "FatalError from {} should → Error",
            initial.label()
        );
    }
}

// Invalid transitions (must not mutate state)

#[test]
fn start_ignored_when_already_starting() {
    let mut state = make_state();
    set_state(&mut state, Service::Apache, ServiceState::Starting);
    let (new_state, effects) = reducer(state, Event::StartService(Service::Apache));
    assert_eq!(new_state.apache.state, ServiceState::Starting);
    // No SpawnService should be emitted
    assert!(!effects
        .iter()
        .any(|e| matches!(e, SideEffect::SpawnService(Service::Apache))));
}

#[test]
fn start_ignored_when_running() {
    let mut state = make_state();
    set_state(&mut state, Service::Apache, ServiceState::Running);
    let (new_state, _) = reducer(state, Event::StartService(Service::Apache));
    assert_eq!(new_state.apache.state, ServiceState::Running);
}

#[test]
fn stop_ignored_when_already_stopped() {
    let state = make_state();
    let (new_state, _) = reducer(state, Event::StopService(Service::Apache));
    // Stopped stays Stopped (no KillService emitted)
    assert_eq!(new_state.apache.state, ServiceState::Stopped);
}

#[test]
fn process_ready_ignored_when_not_starting() {
    let mut state = make_state();
    set_state(&mut state, Service::Apache, ServiceState::Running);
    let (new_state, _) = reducer(state, Event::ProcessReady(Service::Apache));
    assert_eq!(new_state.apache.state, ServiceState::Running);
}

// Retry logic

#[test]
fn crash_schedules_retry_when_desired_running() {
    let mut state = make_state();
    set_state(&mut state, Service::Apache, ServiceState::Running);
    state.apache.desired = DesiredServiceState::Running;
    let (new_state, effects) = reducer(
        state,
        Event::ProcessExit {
            service: Service::Apache,
            exit_code: Some(1),
        },
    );
    assert_eq!(new_state.apache.state, ServiceState::Crashed);
    assert!(effects.iter().any(|e| matches!(
        e,
        SideEffect::ScheduleRetry {
            service: Service::Apache,
            ..
        }
    )));
}

#[test]
fn crash_no_retry_when_desired_stopped() {
    let mut state = make_state();
    set_state(&mut state, Service::Apache, ServiceState::Running);
    state.apache.desired = DesiredServiceState::Stopped;
    let (new_state, effects) = reducer(
        state,
        Event::ProcessExit {
            service: Service::Apache,
            exit_code: Some(1),
        },
    );
    assert_eq!(new_state.apache.state, ServiceState::Crashed);
    assert!(!effects
        .iter()
        .any(|e| matches!(e, SideEffect::ScheduleRetry { .. })));
}

#[test]
fn max_retries_exceeded_transitions_to_error() {
    let mut state = make_state();
    set_state(&mut state, Service::Apache, ServiceState::Running);
    state.apache.desired = DesiredServiceState::Running;
    state.apache.retry_count = MAX_RETRIES; // all retries exhausted

    let (new_state, effects) = reducer(
        state,
        Event::ProcessExit {
            service: Service::Apache,
            exit_code: Some(1),
        },
    );
    assert_eq!(new_state.apache.state, ServiceState::Error);
    assert!(!effects
        .iter()
        .any(|e| matches!(e, SideEffect::ScheduleRetry { .. })));
}

// Invariants

#[test]
fn each_service_state_is_independent() {
    let mut state = make_state();
    set_state(&mut state, Service::Apache, ServiceState::Running);
    let (new_state, _) = reducer(state, Event::StartService(Service::Mysql));
    assert_eq!(new_state.apache.state, ServiceState::Running);
    assert_eq!(new_state.mysql.state, ServiceState::Starting);
}

#[test]
fn restart_from_running_sets_desired_running_and_kills() {
    let mut state = make_state();
    set_state(&mut state, Service::Apache, ServiceState::Running);
    let (new_state, effects) = reducer(state, Event::RestartService(Service::Apache));
    assert_eq!(new_state.apache.state, ServiceState::Stopping);
    assert_eq!(new_state.apache.desired, DesiredServiceState::Running);
    assert!(effects
        .iter()
        .any(|e| matches!(e, SideEffect::KillService(Service::Apache))));
}

#[test]
fn shutdown_all_stops_running_services() {
    let mut state = make_state();
    set_state(&mut state, Service::Apache, ServiceState::Running);
    set_state(&mut state, Service::Mysql, ServiceState::Running);
    set_state(&mut state, Service::Php, ServiceState::Running);
    let (new_state, effects) = reducer(state, Event::ShutdownAll);
    assert_eq!(new_state.apache.state, ServiceState::Stopping);
    assert_eq!(new_state.mysql.state, ServiceState::Stopping);
    assert_eq!(new_state.php.state, ServiceState::Stopping);
    assert!(effects
        .iter()
        .any(|e| matches!(e, SideEffect::KillService(Service::Apache))));
    assert!(effects
        .iter()
        .any(|e| matches!(e, SideEffect::KillService(Service::Mysql))));
    assert!(effects
        .iter()
        .any(|e| matches!(e, SideEffect::KillService(Service::Php))));
}

#[test]
fn php_service_state_machine_works() {
    // PHP follows the same state machine as Apache and MySQL
    let state = make_state();
    let (new_state, effects) = reducer(state, Event::StartService(Service::Php));
    assert_eq!(new_state.php.state, ServiceState::Starting);
    assert!(effects
        .iter()
        .any(|e| matches!(e, SideEffect::SpawnService(Service::Php))));
}

#[test]
fn health_fail_streak_accumulates_and_triggers_crash_at_threshold() {
    let mut state = make_state();
    set_state(&mut state, Service::Apache, ServiceState::Running);
    state.apache.desired = DesiredServiceState::Running;

    // Two failures — still Running
    for _ in 0..2 {
        let (s, _) = reducer(state.clone(), Event::HealthCheckFail(Service::Apache));
        state = s;
    }
    assert_eq!(state.apache.state, ServiceState::Running);

    // Third failure — crosses threshold
    let (new_state, effects) = reducer(state, Event::HealthCheckFail(Service::Apache));
    assert_eq!(new_state.apache.state, ServiceState::Crashed);
    assert!(effects
        .iter()
        .any(|e| matches!(e, SideEffect::KillService(Service::Apache))));
}

#[test]
fn spawn_failed_transitions_to_error() {
    let state = make_state();
    let (new_state, _) = reducer(
        state,
        Event::ProcessSpawnFailed {
            service: Service::Apache,
            reason: "binary not found".into(),
        },
    );
    assert_eq!(new_state.apache.state, ServiceState::Error);
}

// Details

fn lines(effects: &[SideEffect]) -> Vec<String> {
    effects
        .iter()
        .filter_map(|e| match e {
            SideEffect::LogEvent(line) => Some(line.clone()),
            _ => None,
        })
        .collect()
}

fn retry_after(effects: &[SideEffect]) -> Option<u64> {
    effects.iter().find_map(|e| match e {
        SideEffect::ScheduleRetry { delay, .. } => Some(*delay),
        _ => None,
    })
}

fn exit(service: Service, exit_code: Option<i32>) -> Event {
    Event::ProcessExit { service, exit_code }
}

#[test]
fn crash_loop_backs_off_and_ends_in_error() {
    let mut state = make_state();
    let (s, _) = reducer(state, Event::StartService(Service::Mysql));
    state = s;
    let mut delays = Vec::new();
    for _ in 0..4 {
        let (s, effects) = reducer(state, exit(Service::Mysql, Some(1)));
        assert_eq!(s.mysql.state, ServiceState::Crashed);
        delays.push(retry_after(&effects));
        let (s, _) = reducer(s, Event::AutoRetry(Service::Mysql));
        assert_eq!(s.mysql.state, ServiceState::Starting);
        state = s;
    }
    assert_eq!(delays, vec![Some(1), Some(2), Some(4), Some(8)]);
    assert_eq!(state.mysql.retry_count, MAX_RETRIES);
    let (s, effects) = reducer(state, exit(Service::Mysql, Some(1)));
    assert_eq!(s.mysql.state, ServiceState::Error);
    assert_eq!(retry_after(&effects), None);
    let (s, _) = reducer(s, Event::AutoRetry(Service::Mysql));
    assert_eq!(s.mysql.state, ServiceState::Error);
}

#[test]
fn ready_gives_the_retries_back() {
    let mut state = make_state();
    set_state(&mut state, Service::Php, ServiceState::Starting);
    state.php.retry_count = 3;
    let (s, _) = reducer(state, Event::ProcessReady(Service::Php));
    assert_eq!(s.php.retry_count, 0);
}

#[test]
fn restart_brings_a_running_service_back() {
    let mut state = make_state();
    set_state(&mut state, Service::Apache, ServiceState::Running);
    let (s, _) = reducer(state, Event::RestartService(Service::Apache));
    let (s, effects) = reducer(s, exit(Service::Apache, None));
    assert_eq!(s.apache.state, ServiceState::Starting);
    assert!(effects
        .iter()
        .any(|e| matches!(e, SideEffect::SpawnService(Service::Apache))));
}

#[test]
fn rejected_events_change_nothing() {
    let mut state = make_state();
    set_state(&mut state, Service::Apache, ServiceState::Stopping);
    let before = format!("{state:?}");
    let (s, effects) = reducer(state, Event::StartService(Service::Apache));
    assert_eq!(format!("{s:?}"), before);
    assert_eq!(effects.len(), 1);
    assert_eq!(lines(&effects).len(), 1);
    let (s, effects) = reducer(s, Event::HealthCheckFail(Service::Apache));
    assert_eq!(format!("{s:?}"), before);
    assert!(effects.is_empty());
}

#[test]
fn a_taken_port_is_an_error() {
    let mut state = make_state();
    set_state(&mut state, Service::Apache, ServiceState::Starting);
    let (s, _) = reducer(state, Event::PortConflictDetected(Service::Apache));
    assert_eq!(s.apache.state, ServiceState::Error);
    assert_eq!(s.apache.last_error.as_deref(), Some("port already in use"));
}

#[test]
fn a_failed_spawn_keeps_its_reason() {
    let (s, _) = reducer(
        make_state(),
        Event::ProcessSpawnFailed { service: Service::Php, reason: String::from("no such file") },
    );
    assert_eq!(s.php.last_error.as_deref(), Some("no such file"));
}

#[test]
fn a_passed_check_ends_the_streak() {
    let mut state = make_state();
    set_state(&mut state, Service::Php, ServiceState::Running);
    state.php.health_fail_streak = HEALTH_FAIL_THRESHOLD - 1;
    let (s, _) = reducer(state, Event::HealthCheckPass(Service::Php));
    assert_eq!(s.php.health_fail_streak, 0);
    let (s, _) = reducer(s, Event::HealthCheckFail(Service::Php));
    assert_eq!(s.php.state, ServiceState::Running);
    assert_eq!(s.php.health_fail_streak, 1);
}

#[test]
fn start_and_stop_are_persisted_and_a_restart_is_not() {
    let persisted = |effects: &[SideEffect]| {
        effects
            .iter()
            .any(|e| matches!(e, SideEffect::PersistDesiredState))
    };
    let (s, effects) = reducer(make_state(), Event::StartService(Service::Apache));
    assert_eq!(s.apache.desired, DesiredServiceState::Running);
    assert!(persisted(&effects));
    let (s, effects) = reducer(s, Event::StopService(Service::Apache));
    assert_eq!(s.apache.desired, DesiredServiceState::Stopped);
    assert!(persisted(&effects));
    let (_, effects) = reducer(s, Event::RestartService(Service::Apache));
    assert!(!persisted(&effects));
}

#[test]
fn ticks_and_reloads_change_no_state() {
    let before = format!("{:?}", make_state());
    for event in [Event::Tick, Event::ConfigReloaded] {
        let (s, _) = reducer(make_state(), event);
        assert_eq!(format!("{s:?}"), before);
    }
}

#[test]
fn an_unwanted_service_is_not_retried() {
    let mut state = make_state();
    set_state(&mut state, Service::Apache, ServiceState::Crashed);
    let (s, effects) = reducer(state, Event::AutoRetry(Service::Apache));
    assert_eq!(s.apache.state, ServiceState::Crashed);
    assert!(!effects
        .iter()
        .any(|e| matches!(e, SideEffect::SpawnService(_))));
}

#[test]
fn a_fatal_error_twice_is_a_fatal_error_once() {
    let fatal = || Event::FatalError { service: Service::Mysql, reason: String::from("disk full") };
    let (once, _) = reducer(make_state(), fatal());
    let shown = format!("{once:?}");
    let (twice, _) = reducer(once, fatal());
    assert_eq!(format!("{twice:?}"), shown);
}
