//! Launching, watching and probing services.

use ramp::config::{validate_and_build, TomlApache, TomlMysql, TomlPhp, TomlRoot};
use ramp::events::{Event, SideEffect};
use ramp::executor::{Action, Executor};
use ramp::health::{
    apache_answers, apache_is_healthy, apache_is_ready, apache_url, health_event, health_step,
    local_address, poll_probed, poll_round, ready_timeout, HealthNews, HealthStep, PollStep,
};
use ramp::process::{
    check_step, config_paths, initialize_args, launch_next, sanitized_environment, service_params,
    step_needed, watch_step, LaunchFacts, LaunchNext, LaunchStep, WatchProbe, WatchStep,
};
use ramp::state::{
    AppState, DesiredServiceState, PersistedState, RampConfig, Service, ServiceState,
    SHUTDOWN_GRACE_PERIOD,
};
use ramp::storage::{temp_path, write_next, WriteNext, WriteStep};

fn config() -> RampConfig {
    let doc = TomlRoot {
        install_dir: String::from("C:\\ramp"),
        apache: TomlApache { port: 8080 },
        mysql: TomlMysql { port: 3306 },
        php: TomlPhp { port: 9001 },
    };
    validate_and_build(doc, "C:\\ramp").unwrap()
}

fn executor() -> Executor {
    Executor::new(config())
}

fn shown(actions: &[Action]) -> Vec<String> {
    actions.iter().map(|action| format!("{action:?}")).collect()
}

#[test]
fn each_service_has_its_command_line() {
    let cfg = config();
    let (bin, args, dir) = service_params(Service::Apache, &cfg);
    assert_eq!(bin, "C:\\ramp\\apache\\bin\\httpd.exe");
    assert_eq!(args, vec!["-f", "C:\\ramp\\apache\\conf\\httpd.conf", "-DFOREGROUND"]);
    assert_eq!(dir, "C:\\ramp\\apache");
    let (bin, args, dir) = service_params(Service::Mysql, &cfg);
    assert_eq!(bin, "C:\\ramp\\mysql\\bin\\mysqld.exe");
    assert_eq!(args, vec!["--defaults-file=C:\\ramp\\mysql\\my.ini", "--console"]);
    assert_eq!(dir, "C:\\ramp\\mysql");
    let (bin, args, dir) = service_params(Service::Php, &cfg);
    assert_eq!(bin, "C:\\ramp\\php\\php-cgi.exe");
    assert_eq!(args, vec!["-b", "127.0.0.1:9001"]);
    assert_eq!(dir, "C:\\ramp\\php");
}

#[test]
fn the_environment_is_sanitized() {
    let env = sanitized_environment(None, Some(String::from("D:\\tmp")));
    assert_eq!(
        env,
        vec![
            (String::from("SystemRoot"), String::from("C:\\Windows")),
            (String::from("TEMP"), String::from("D:\\tmp")),
        ]
    );
    let env = sanitized_environment(Some(String::from("W:\\")), None);
    assert_eq!(env[0].1, "W:\\");
    assert_eq!(env[1].1, "C:\\Windows\\Temp");
}

#[test]
fn a_launch_goes_step_by_step() {
    let cfg = config();
    let mut step = LaunchStep::ValidateBinary;
    let mut taken = vec![step];
    let last = loop {
        match launch_next(Service::Apache, step, Ok(()), &cfg) {
            LaunchNext::Do(next) => {
                step = next;
                taken.push(step);
            }
            LaunchNext::Checked(next) => {
                assert_eq!(step, LaunchStep::ValidateConfig);
                step = next;
                taken.push(step);
            }
            other => break other,
        }
    };
    assert!(matches!(last, LaunchNext::Started));
    assert_eq!(
        taken,
        vec![
            LaunchStep::ValidateBinary,
            LaunchStep::FindBinary,
            LaunchStep::ValidateConfig,
            LaunchStep::EnsureData,
            LaunchStep::CreateJob,
            LaunchStep::ConfigureJob,
            LaunchStep::InitializeData,
            LaunchStep::SpawnChild,
            LaunchStep::OpenChild,
            LaunchStep::AssignChild,
        ]
    );
}

#[test]
fn a_failed_launch_cleans_up() {
    let cfg = config();
    let cases = [
        (LaunchStep::ValidateBinary, "binary validation: e", false, false),
        (
            LaunchStep::FindBinary,
            "binary not found: C:\\ramp\\mysql\\bin\\mysqld.exe",
            false,
            false,
        ),
        (LaunchStep::ValidateConfig, "config C:\\ramp\\mysql\\my.ini: e", false, false),
        (LaunchStep::EnsureData, "data directory C:\\ramp\\mysql\\data: e", false, false),
        (LaunchStep::CreateJob, "CreateJobObjectW: e", false, false),
        (LaunchStep::ConfigureJob, "SetInformationJobObject: e", false, true),
        (LaunchStep::InitializeData, "database initialization: e", false, true),
        (LaunchStep::SpawnChild, "spawn: e", false, true),
        (LaunchStep::OpenChild, "OpenProcess: e", true, true),
        (
            LaunchStep::AssignChild,
            "AssignProcessToJobObject: e — service must not start",
            true,
            true,
        ),
    ];
    for (step, expected, child, job) in cases {
        match launch_next(Service::Mysql, step, Err(String::from("e")), &cfg) {
            LaunchNext::Failed { reason, kill_child, close_job } => {
                assert_eq!(reason, expected);
                assert_eq!((kill_child, close_job), (child, job));
            }
            other => panic!("{other:?}"),
        }
    }
    match launch_next(
        Service::Apache,
        LaunchStep::ValidateConfig,
        Err(String::from("no such file")),
        &cfg,
    ) {
        LaunchNext::Failed { reason, .. } => {
            assert_eq!(reason, "config C:\\ramp\\apache\\conf\\httpd.conf: no such file")
        }
        other => panic!("{other:?}"),
    }
}

fn in_order() -> LaunchFacts {
    LaunchFacts {
        binary_is_symlink: false,
        binary_exists: true,
        config_dir_is_symlink: false,
        config_is_symlink: false,
        config_exists: true,
        data_is_symlink: false,
    }
}

const STEPS: [LaunchStep; 10] = [
    LaunchStep::ValidateBinary,
    LaunchStep::FindBinary,
    LaunchStep::ValidateConfig,
    LaunchStep::EnsureData,
    LaunchStep::CreateJob,
    LaunchStep::ConfigureJob,
    LaunchStep::InitializeData,
    LaunchStep::SpawnChild,
    LaunchStep::OpenChild,
    LaunchStep::AssignChild,
];

#[test]
fn an_installed_service_can_be_launched() {
    let cfg = config();
    for svc in [Service::Apache, Service::Mysql, Service::Php] {
        for step in STEPS {
            assert_eq!(check_step(svc, &cfg, step, in_order()), Ok(()));
        }
    }
}

#[test]
fn a_launch_needs_binary_config_and_data() {
    let cfg = config();
    let fault = |svc: Service, step: LaunchStep, facts: LaunchFacts| {
        check_step(svc, &cfg, step, facts).unwrap_err()
    };
    let missing = LaunchFacts { binary_exists: false, config_exists: false, ..in_order() };
    assert_eq!(fault(Service::Php, LaunchStep::FindBinary, missing), "no such file");
    assert_eq!(fault(Service::Apache, LaunchStep::ValidateConfig, missing), "no such file");
    assert_eq!(fault(Service::Mysql, LaunchStep::ValidateConfig, missing), "no such file");
    assert_eq!(check_step(Service::Php, &cfg, LaunchStep::ValidateConfig, missing), Ok(()));
    let links = LaunchFacts {
        binary_is_symlink: true,
        config_dir_is_symlink: true,
        config_is_symlink: true,
        data_is_symlink: true,
        ..in_order()
    };
    assert_eq!(
        fault(Service::Php, LaunchStep::ValidateBinary, links),
        "symlink not allowed for critical path: C:\\ramp\\php\\php-cgi.exe"
    );
    assert_eq!(
        fault(Service::Apache, LaunchStep::ValidateConfig, links),
        "symlink not allowed for critical path: C:\\ramp\\apache\\conf"
    );
    let link = LaunchFacts { config_is_symlink: true, ..in_order() };
    assert_eq!(
        fault(Service::Mysql, LaunchStep::ValidateConfig, link),
        "symlink not allowed for critical path: C:\\ramp\\mysql\\my.ini"
    );
    assert_eq!(
        fault(Service::Mysql, LaunchStep::EnsureData, links),
        "symlink not allowed for critical path: C:\\ramp\\mysql\\data"
    );
    assert_eq!(check_step(Service::Apache, &cfg, LaunchStep::EnsureData, links), Ok(()));
}

#[test]
fn the_database_is_made_in_the_first_run() {
    let cfg = config();
    assert!(step_needed(Service::Mysql, LaunchStep::InitializeData, true));
    assert!(!step_needed(Service::Mysql, LaunchStep::InitializeData, false));
    assert!(!step_needed(Service::Apache, LaunchStep::InitializeData, true));
    assert!(step_needed(Service::Mysql, LaunchStep::EnsureData, false));
    assert!(!step_needed(Service::Php, LaunchStep::EnsureData, true));
    assert!(!step_needed(Service::Php, LaunchStep::ValidateConfig, true));
    assert!(step_needed(Service::Php, LaunchStep::SpawnChild, false));
    assert_eq!(
        initialize_args(&cfg),
        vec![
            "--defaults-file=C:\\ramp\\mysql\\my.ini",
            "--datadir=C:\\ramp\\mysql\\data",
            "--initialize",
            "--console",
        ]
    );
    assert_eq!(
        config_paths(Service::Apache, &cfg),
        Some((
            String::from("C:\\ramp\\apache\\conf"),
            String::from("C:\\ramp\\apache\\conf\\httpd.conf")
        ))
    );
    assert_eq!(config_paths(Service::Php, &cfg), None);
}

#[test]
fn the_end_of_a_process_is_reported() {
    assert!(matches!(
        watch_step(Service::Php, None, WatchProbe::Exited(Some(3))),
        WatchStep::Report(Event::ProcessExit { service: Service::Php, exit_code: Some(3) })
    ));
    assert!(matches!(
        watch_step(Service::Php, Some(10), WatchProbe::Exited(Some(3))),
        WatchStep::Report(Event::ProcessExit { service: Service::Php, exit_code: None })
    ));
    assert!(matches!(
        watch_step(Service::Php, None, WatchProbe::Unknown),
        WatchStep::Report(Event::ProcessExit { service: Service::Php, exit_code: None })
    ));
    assert!(matches!(watch_step(Service::Php, None, WatchProbe::Alive), WatchStep::Wait(100)));
}

#[test]
fn a_process_gets_a_grace_period() {
    let look = |stopping_for: Option<u64>, probe: WatchProbe| {
        watch_step(Service::Mysql, stopping_for, probe)
    };
    assert_eq!(SHUTDOWN_GRACE_PERIOD, 5000);
    assert!(matches!(look(None, WatchProbe::StopRequested), WatchStep::SignalStop));
    assert!(matches!(look(Some(0), WatchProbe::Alive), WatchStep::Wait(100)));
    assert!(matches!(look(Some(4999), WatchProbe::Alive), WatchStep::Wait(100)));
    assert!(matches!(look(Some(5000), WatchProbe::Alive), WatchStep::ForceKill));
    assert!(matches!(look(None, WatchProbe::GivenUp), WatchStep::ForceKill));
}

#[test]
fn apache_signs_its_answers() {
    assert!(apache_is_ready(200, "Apache/2.4.58 (Win64)"));
    assert!(apache_is_ready(399, "APACHE"));
    assert!(!apache_is_ready(199, "Apache"));
    assert!(!apache_is_ready(400, "Apache"));
    assert!(!apache_is_ready(200, "nginx"));
    assert!(!apache_is_ready(200, ""));
    assert!(apache_is_healthy(200) && apache_is_healthy(399));
    assert!(!apache_is_healthy(199) && !apache_is_healthy(400));
    assert!(!apache_answers(200, "Apache"));
    assert!(apache_answers(200, "my apache"));
}

#[test]
fn addresses_are_local() {
    assert_eq!(local_address(80), "127.0.0.1:80");
    assert_eq!(apache_url(8080), "http://127.0.0.1:8080/");
}

#[test]
fn polling_ends_with_a_report() {
    assert_eq!(ready_timeout(Service::Apache), 3000);
    assert_eq!(ready_timeout(Service::Mysql), 5000);
    assert_eq!(ready_timeout(Service::Php), 5000);
    assert!(matches!(poll_round(Service::Apache, 2_999_999_999, 3000), PollStep::Probe));
    assert!(matches!(
        poll_round(Service::Apache, 3_000_000_000, 3000),
        PollStep::Report(Event::ProcessExit { service: Service::Apache, exit_code: None })
    ));
    assert!(matches!(poll_probed(Service::Apache, false), PollStep::Wait(200)));
    assert!(matches!(
        poll_probed(Service::Apache, true),
        PollStep::Report(Event::ProcessReady(Service::Apache))
    ));
    assert!(matches!(
        health_event(Service::Mysql, true),
        Event::HealthCheckPass(Service::Mysql)
    ));
    assert!(matches!(
        health_event(Service::Mysql, false),
        Event::HealthCheckFail(Service::Mysql)
    ));
}

#[test]
fn health_is_reported_once_per_interval() {
    let step = |news: HealthNews| health_step(Service::Php, news);
    assert!(matches!(step(HealthNews::Waited), HealthStep::Probe));
    assert!(matches!(
        step(HealthNews::Probed(true)),
        HealthStep::Report(Event::HealthCheckPass(Service::Php))
    ));
    assert!(matches!(
        step(HealthNews::Probed(false)),
        HealthStep::Report(Event::HealthCheckFail(Service::Php))
    ));
    assert!(matches!(step(HealthNews::Sent(true)), HealthStep::Wait(2000)));
    assert!(matches!(step(HealthNews::Sent(false)), HealthStep::End));
    assert!(matches!(step(HealthNews::Stopped), HealthStep::End));
    assert!(matches!(step(HealthNews::Abandoned), HealthStep::End));
}

#[test]
fn a_spawn_checks_first_and_then_probes_the_port() {
    let mut executor = executor();
    let state = AppState::new(config());
    let actions = executor.execute(SideEffect::SpawnService(Service::Apache), &state);
    assert_eq!(shown(&actions), vec!["Check(Apache)"]);
    let actions = executor.checked(Service::Apache, Err(String::from("no config")));
    assert_eq!(
        shown(&actions),
        vec!["Emit(ProcessSpawnFailed { service: Apache, reason: \"no config\" })"]
    );
    let actions = executor.checked(Service::Apache, Ok(()));
    assert_eq!(shown(&actions), vec!["ProbePort { service: Apache, port: 8080 }"]);
    let actions = executor.port_probed(Service::Apache, false);
    assert_eq!(shown(&actions), vec!["Emit(PortConflictDetected(Apache))"]);
    let actions = executor.port_probed(Service::Apache, true);
    assert_eq!(shown(&actions), vec!["Launch(Apache)"]);
    let actions = executor.launched(Service::Apache, Err(String::from("no")));
    assert_eq!(
        shown(&actions),
        vec!["Emit(ProcessSpawnFailed { service: Apache, reason: \"no\" })"]
    );
    let actions = executor.launched(Service::Apache, Ok(()));
    assert_eq!(shown(&actions), vec!["Watch(Apache)"]);
}

#[test]
fn an_old_process_goes_before_a_new_one() {
    let mut executor = executor();
    executor.launched(Service::Mysql, Ok(()));
    let actions = executor.start_health_check(Service::Mysql);
    assert_eq!(shown(&actions), vec!["CheckHealth { service: Mysql, port: 3306 }"]);
    let actions = executor.port_probed(Service::Mysql, true);
    assert_eq!(
        shown(&actions),
        vec!["SignalHealthStop(Mysql)", "SignalKill(Mysql)", "Launch(Mysql)"]
    );
}

#[test]
fn there_is_one_health_checker_at_a_time() {
    let mut executor = executor();
    let state = AppState::new(config());
    executor.start_health_check(Service::Php);
    let actions = executor.start_health_check(Service::Php);
    assert_eq!(
        shown(&actions),
        vec!["SignalHealthStop(Php)", "CheckHealth { service: Php, port: 9001 }"]
    );
    let stop = || SideEffect::StopHealthCheck(Service::Php);
    assert_eq!(shown(&executor.execute(stop(), &state)), vec!["SignalHealthStop(Php)"]);
    assert!(executor.execute(stop(), &state).is_empty());
    let kill = || SideEffect::KillService(Service::Php);
    assert_eq!(shown(&executor.execute(kill(), &state)), vec!["SignalKill(Php)"]);
    assert!(executor.execute(kill(), &state).is_empty());
}

#[test]
fn a_service_that_is_shut_down_is_asked_to_stop() {
    let mut executor = executor();
    let mut state = AppState::new(config());
    let kill = || SideEffect::KillService(Service::Apache);
    executor.launched(Service::Apache, Ok(()));
    executor.start_health_check(Service::Apache);
    state.apache.state = ServiceState::Stopping;
    assert_eq!(
        shown(&executor.execute(kill(), &state)),
        vec!["SignalHealthStop(Apache)", "SignalStop(Apache)"]
    );
    executor.launched(Service::Apache, Ok(()));
    state.apache.state = ServiceState::Crashed;
    assert_eq!(shown(&executor.execute(kill(), &state)), vec!["SignalKill(Apache)"]);
}

#[test]
fn other_effects_become_one_action() {
    let mut executor = executor();
    let mut state = AppState::new(config());
    state.php.desired = DesiredServiceState::Running;
    let mut one = |effect: SideEffect| shown(&executor.execute(effect, &state));
    assert_eq!(
        one(SideEffect::StartReadinessCheck(Service::Mysql)),
        vec!["PollReadiness { service: Mysql, port: 3306, timeout: 5000 }"]
    );
    assert_eq!(
        one(SideEffect::ScheduleRetry { service: Service::Mysql, delay: 4 }),
        vec!["RetryLater { service: Mysql, delay: 4 }"]
    );
    assert_eq!(one(SideEffect::LogEvent(String::from("x"))), vec!["Log(\"x\")"]);
    let kept = PersistedState {
        apache_desired: DesiredServiceState::Stopped,
        mysql_desired: DesiredServiceState::Stopped,
        php_desired: DesiredServiceState::Running,
    };
    assert_eq!(one(SideEffect::PersistDesiredState), vec![format!("Persist({kept:?})")]);
}

#[test]
fn a_file_is_renamed_last() {
    let mut step = WriteStep::CreateDir;
    let mut taken = vec![step];
    while let WriteNext::Do(next) = write_next(step, Ok(()), "C:\\ramp") {
        step = next;
        taken.push(step);
    }
    assert_eq!(
        taken,
        vec![
            WriteStep::CreateDir,
            WriteStep::CreateTemp,
            WriteStep::WriteTemp,
            WriteStep::FlushTemp,
            WriteStep::SyncTemp,
            WriteStep::Rename,
        ]
    );
    assert!(matches!(write_next(step, Ok(()), "C:\\ramp"), WriteNext::Written));
}

#[test]
fn a_temporary_file_is_another_file() {
    assert_eq!(temp_path("C:\\ramp\\ramp.toml"), "C:\\ramp\\ramp.tmp");
    assert_eq!(temp_path("C:\\ramp\\ramp.state"), "C:\\ramp\\ramp.tmp");
    assert_eq!(temp_path("x.tmp"), "x.tmp");
}

#[test]
fn a_failed_write_tells_the_step() {
    let cases = [
        (WriteStep::CreateDir, "cannot create dir C:\\ramp: e"),
        (WriteStep::CreateTemp, "cannot create temp file: e"),
        (WriteStep::WriteTemp, "write failed: e"),
        (WriteStep::FlushTemp, "flush failed: e"),
        (WriteStep::SyncTemp, "fsync failed: e"),
        (WriteStep::Rename, "atomic rename failed: e"),
    ];
    for (step, expected) in cases {
        match write_next(step, Err(String::from("e")), "C:\\ramp") {
            WriteNext::Failed(reason) => assert_eq!(reason, expected),
            other => panic!("{other:?}"),
        }
    }
}
