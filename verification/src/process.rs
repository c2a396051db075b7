//! How the processes of the services are started and watched.

use crate::config::built_config;
use crate::events::Event;
use crate::health::{local_address, local_address_text};
use crate::paths::{
    install_fault, is_rooted, law_installed_paths_are_accepted, law_layout_of_apache,
    law_layout_of_mysql, law_layout_of_php, law_service_directories, lemma_layout_names_are_plain,
    path_fault, validate_critical_path,
};
use crate::state::{ConfigView, RampConfig, Service, SHUTDOWN_GRACE_PERIOD};
use crate::text::decimal;
use crate::winpath::{joined, lies_in, parts, path_join, takes_names, PartView};
use vstd::prelude::*;
use vstd::string::StringExecFns;

verus! {

// ---------------------------------------------------------------------------
// What is started
// ---------------------------------------------------------------------------
/// The texts in a list of strings.
pub open spec fn texts(list: Seq<String>) -> Seq<Seq<char>> {
    list.map_values(|text: String| text@)
}

/// The binary of a service.
pub open spec fn binary(svc: Service, config: ConfigView) -> Seq<char> {
    match svc {
        Service::Apache => config.apache_bin,
        Service::Mysql => config.mysql_bin,
        Service::Php => config.php_bin,
    }
}

/// The arguments that a service is started with. PHP listens on the local
/// address only.
pub open spec fn arguments(svc: Service, config: ConfigView) -> Seq<Seq<char>> {
    match svc {
        Service::Apache => seq!["-f"@, config.apache_conf, "-DFOREGROUND"@],
        Service::Mysql => seq!["--defaults-file="@ + config.mysql_ini, "--console"@],
        Service::Php => seq!["-b"@, local_address_text(config.php_port)],
    }
}

/// The directory that a service runs in: the one that holds all its files.
pub open spec fn work_dir(svc: Service, config: ConfigView) -> Seq<char> {
    match svc {
        Service::Apache => joined(config.install_dir, "apache"@),
        Service::Mysql => joined(config.install_dir, "mysql"@),
        Service::Php => joined(config.install_dir, "php"@),
    }
}

/// Binary, arguments and working directory of a service.
pub fn service_params(svc: Service, config: &RampConfig) -> (params: (
    String,
    Vec<String>,
    String,
))
    ensures
        params.0@ == binary(svc, config@),
        texts(params.1@) == arguments(svc, config@),
        params.2@ == work_dir(svc, config@),
{
    proof {
        lemma_layout_names_are_plain();
    }
    let mut args: Vec<String> = Vec::new();
    match svc {
        Service::Apache => {
            args.push("-f".to_string());
            args.push(config.apache.conf.clone());
            args.push("-DFOREGROUND".to_string());
            assert(texts(args@) =~= arguments(svc, config@));
            (config.apache.bin.clone(), args, path_join(config.install_dir.as_str(), "apache"))
        },
        Service::Mysql => {
            let mut defaults = "--defaults-file=".to_string();
            defaults.append(config.mysql.ini.as_str());
            args.push(defaults);
            args.push("--console".to_string());
            assert(texts(args@) =~= arguments(svc, config@));
            (config.mysql.bin.clone(), args, path_join(config.install_dir.as_str(), "mysql"))
        },
        Service::Php => {
            args.push("-b".to_string());
            args.push(local_address(config.php.port));
            assert(texts(args@) =~= arguments(svc, config@));
            (config.php.bin.clone(), args, path_join(config.install_dir.as_str(), "php"))
        },
    }
}

/// The environment of every service: these two variables and no others. Each
/// has the value that it has for RAMP itself, or the usual one if it has none.
pub fn sanitized_environment(system_root: Option<String>, temp: Option<String>) -> (env: Vec<
    (String, String),
>)
    ensures
        env@.len() == 2,
        env@[0].0@ == "SystemRoot"@,
        env@[0].1@ == (match system_root {
            Some(dir) => dir@,
            None => "C:\\Windows"@,
        }),
        env@[1].0@ == "TEMP"@,
        env@[1].1@ == (match temp {
            Some(dir) => dir@,
            None => "C:\\Windows\\Temp"@,
        }),
{
    let root = match system_root {
        Some(dir) => dir,
        None => "C:\\Windows".to_string(),
    };
    let scratch = match temp {
        Some(dir) => dir,
        None => "C:\\Windows\\Temp".to_string(),
    };
    let mut env: Vec<(String, String)> = Vec::new();
    env.push(("SystemRoot".to_string(), root));
    env.push(("TEMP".to_string(), scratch));
    env
}

/// The configuration file that a service is started with, if there is one.
pub open spec fn config_file(svc: Service, config: ConfigView) -> Option<Seq<char>> {
    match svc {
        Service::Apache => Some(config.apache_conf),
        Service::Mysql => Some(config.mysql_ini),
        Service::Php => None,
    }
}

/// The directory that the configuration of a service stands in.
pub open spec fn config_dir(svc: Service, config: ConfigView) -> Seq<char> {
    match svc {
        Service::Apache => joined(joined(config.install_dir, "apache"@), "conf"@),
        _ => work_dir(svc, config),
    }
}

/// Directory and path of the configuration file that a service is started with,
/// if there is one.
pub fn config_paths(svc: Service, config: &RampConfig) -> (paths: Option<(String, String)>)
    ensures
        match paths {
            Some((dir, file)) => dir@ == config_dir(svc, config@) && config_file(svc, config@)
                == Some(file@),
            None => config_file(svc, config@) is None,
        },
{
    proof {
        lemma_layout_names_are_plain();
    }
    match svc {
        Service::Apache => {
            let apache = path_join(config.install_dir.as_str(), "apache");
            Some((path_join(apache.as_str(), "conf"), config.apache.conf.clone()))
        },
        Service::Mysql => Some(
            (path_join(config.install_dir.as_str(), "mysql"), config.mysql.ini.clone()),
        ),
        Service::Php => None,
    }
}

/// The arguments with which MySQL makes its database in an empty data directory,
/// with a password of its own choice for the administrator.
pub open spec fn initialize_arguments(config: ConfigView) -> Seq<Seq<char>> {
    seq![
        "--defaults-file="@ + config.mysql_ini,
        "--datadir="@ + config.mysql_data_dir,
        "--initialize"@,
        "--console"@,
    ]
}

pub fn initialize_args(config: &RampConfig) -> (args: Vec<String>)
    ensures
        texts(args@) == initialize_arguments(config@),
{
    let mut args: Vec<String> = Vec::new();
    args.push("--defaults-file=".to_string().concat(config.mysql.ini.as_str()));
    args.push("--datadir=".to_string().concat(config.mysql.data_dir.as_str()));
    args.push("--initialize".to_string());
    args.push("--console".to_string());
    assert(texts(args@) =~= initialize_arguments(config@));
    args
}

// ---------------------------------------------------------------------------
// The steps of a launch
// ---------------------------------------------------------------------------
/// The steps of a launch, in their order.
#[derive(Debug, Clone, Copy, PartialEq, Eq, Structural)]
pub enum LaunchStep {
    /// Check the path of the binary.
    ValidateBinary,
    /// See whether the binary exists.
    FindBinary,
    /// Check the paths of the configuration, and see whether it exists.
    ValidateConfig,
    /// Check the path of the data directory, and create it if there is none.
    EnsureData,
    /// Create the job object that will hold the whole process tree.
    CreateJob,
    /// Tell the job object to kill its processes when it is closed.
    ConfigureJob,
    /// Have the database made, by a process under the job object that ends
    /// before the next step.
    InitializeData,
    /// Spawn the child process.
    SpawnChild,
    /// Open a handle to the child process.
    OpenChild,
    /// Assign the child process to the job object.
    AssignChild,
}

/// What comes after a step.
#[derive(Debug)]
pub enum LaunchNext {
    /// The next step.
    Do(LaunchStep),
    /// The service can be launched. Once its port is known to be free, this is the
    /// next step.
    Checked(LaunchStep),
    /// The service has been started.
    Started,
    /// The service must not run, for this reason; what there is of it has to go.
    Failed { reason: String, kill_child: bool, close_job: bool },
}

/// There is something to do in a step. Only MySQL has a data directory, and its
/// database is made in the first run, when that directory is empty.
pub open spec fn is_needed(svc: Service, step: LaunchStep, first_run: bool) -> bool {
    match step {
        LaunchStep::ValidateConfig => !(svc is Php),
        LaunchStep::EnsureData => svc is Mysql,
        LaunchStep::InitializeData => svc is Mysql && first_run,
        _ => true,
    }
}

/// Whether there is something to do in a step. A step in which there is nothing
/// to do goes well.
pub fn step_needed(svc: Service, step: LaunchStep, first_run: bool) -> (needed: bool)
    ensures
        needed == is_needed(svc, step, first_run),
        needed == (match step {
            LaunchStep::ValidateConfig => svc is Apache || svc is Mysql,
            LaunchStep::EnsureData => svc is Mysql,
            LaunchStep::InitializeData => svc is Mysql && first_run,
            _ => true,
        }),
{
    match step {
        LaunchStep::ValidateConfig => svc != Service::Php,
        LaunchStep::EnsureData => svc == Service::Mysql,
        LaunchStep::InitializeData => svc == Service::Mysql && first_run,
        _ => true,
    }
}

/// What the file system knows of the paths that matter for a launch.
#[derive(Debug, Clone, Copy)]
pub struct LaunchFacts {
    pub binary_is_symlink: bool,
    pub binary_exists: bool,
    pub config_dir_is_symlink: bool,
    pub config_is_symlink: bool,
    pub config_exists: bool,
    pub data_is_symlink: bool,
}

/// Why a step must not be taken, from what the file system knows. Binary,
/// configuration and data have to lie in the install directory and must not be
/// reached through symbolic links, and binary and configuration have to exist.
pub open spec fn check_fault(
    svc: Service,
    config: ConfigView,
    step: LaunchStep,
    facts: LaunchFacts,
) -> Option<Seq<char>> {
    let root = config.install_dir;
    match step {
        LaunchStep::ValidateBinary => path_fault(
            binary(svc, config),
            root,
            false,
            facts.binary_is_symlink,
        ),
        LaunchStep::FindBinary => if facts.binary_exists {
            None
        } else {
            Some("no such file"@)
        },
        LaunchStep::ValidateConfig => match config_file(svc, config) {
            Some(file) => {
                let dir_fault = path_fault(
                    config_dir(svc, config),
                    root,
                    false,
                    facts.config_dir_is_symlink,
                );
                let file_fault = path_fault(file, root, false, facts.config_is_symlink);
                if dir_fault is Some {
                    dir_fault
                } else if file_fault is Some {
                    file_fault
                } else if !facts.config_exists {
                    Some("no such file"@)
                } else {
                    None
                }
            },
            None => None,
        },
        LaunchStep::EnsureData => if svc is Mysql {
            path_fault(config.mysql_data_dir, root, false, facts.data_is_symlink)
        } else {
            None
        },
        _ => None,
    }
}

/// Checks whether a step may be taken.
pub fn check_step(svc: Service, config: &RampConfig, step: LaunchStep, facts: LaunchFacts) -> (result:
    Result<(), String>)
    ensures
        match result {
            Ok(_) => check_fault(svc, config@, step, facts) is None,
            Err(error) => check_fault(svc, config@, step, facts) == Some(error@),
        },
{
    let root = config.install_dir.as_str();
    match step {
        LaunchStep::ValidateBinary => {
            let (bin, _, _) = service_params(svc, config);
            validate_critical_path(bin.as_str(), root, false, facts.binary_is_symlink)
        },
        LaunchStep::FindBinary => if facts.binary_exists {
            Ok(())
        } else {
            Err("no such file".to_string())
        },
        LaunchStep::ValidateConfig => match config_paths(svc, config) {
            Some((dir, file)) => {
                if let Err(error) = validate_critical_path(
                    dir.as_str(),
                    root,
                    false,
                    facts.config_dir_is_symlink,
                ) {
                    return Err(error);
                }
                if let Err(error) = validate_critical_path(
                    file.as_str(),
                    root,
                    false,
                    facts.config_is_symlink,
                ) {
                    return Err(error);
                }
                if !facts.config_exists {
                    return Err("no such file".to_string());
                }
                Ok(())
            },
            None => Ok(()),
        },
        LaunchStep::EnsureData => if svc == Service::Mysql {
            validate_critical_path(
                config.mysql.data_dir.as_str(),
                root,
                false,
                facts.data_is_symlink,
            )
        } else {
            Ok(())
        },
        _ => Ok(()),
    }
}

/// The step after a step that went well, if there is one.
pub open spec fn step_after(step: LaunchStep) -> Option<LaunchStep> {
    match step {
        LaunchStep::ValidateBinary => Some(LaunchStep::FindBinary),
        LaunchStep::FindBinary => Some(LaunchStep::ValidateConfig),
        LaunchStep::ValidateConfig => Some(LaunchStep::EnsureData),
        LaunchStep::EnsureData => Some(LaunchStep::CreateJob),
        LaunchStep::CreateJob => Some(LaunchStep::ConfigureJob),
        LaunchStep::ConfigureJob => Some(LaunchStep::InitializeData),
        LaunchStep::InitializeData => Some(LaunchStep::SpawnChild),
        LaunchStep::SpawnChild => Some(LaunchStep::OpenChild),
        LaunchStep::OpenChild => Some(LaunchStep::AssignChild),
        LaunchStep::AssignChild => None,
    }
}

/// There is a job object when this step begins.
pub open spec fn has_job(step: LaunchStep) -> bool {
    match step {
        LaunchStep::ValidateBinary
        | LaunchStep::FindBinary
        | LaunchStep::ValidateConfig
        | LaunchStep::EnsureData
        | LaunchStep::CreateJob => false,
        _ => true,
    }
}

/// There is a child process when this step begins.
pub open spec fn has_child(step: LaunchStep) -> bool {
    step is OpenChild || step is AssignChild
}

/// Why a launch failed, for the failure of one step.
pub open spec fn launch_failure(
    svc: Service,
    step: LaunchStep,
    error: Seq<char>,
    config: ConfigView,
) -> Seq<char> {
    match step {
        LaunchStep::ValidateBinary => "binary validation: "@ + error,
        LaunchStep::FindBinary => "binary not found: "@ + binary(svc, config),
        LaunchStep::ValidateConfig => match config_file(svc, config) {
            Some(file) => "config "@ + file + ": "@ + error,
            None => "config: "@ + error,
        },
        LaunchStep::EnsureData => "data directory "@ + config.mysql_data_dir + ": "@ + error,
        LaunchStep::CreateJob => "CreateJobObjectW: "@ + error,
        LaunchStep::ConfigureJob => "SetInformationJobObject: "@ + error,
        LaunchStep::InitializeData => "database initialization: "@ + error,
        LaunchStep::SpawnChild => "spawn: "@ + error,
        LaunchStep::OpenChild => "OpenProcess: "@ + error,
        LaunchStep::AssignChild => "AssignProcessToJobObject: "@ + error
            + " — service must not start"@,
    }
}

fn failure_text(svc: Service, step: LaunchStep, error: &str, config: &RampConfig) -> (reason:
    String)
    ensures
        reason@ == launch_failure(svc, step, error@, config@),
{
    match step {
        LaunchStep::ValidateBinary => "binary validation: ".to_string().concat(error),
        LaunchStep::FindBinary => {
            let (bin, _, _) = service_params(svc, config);
            "binary not found: ".to_string().concat(bin.as_str())
        },
        LaunchStep::ValidateConfig => match config_paths(svc, config) {
            Some((_, file)) => "config ".to_string().concat(file.as_str()).concat(": ").concat(
                error,
            ),
            None => "config: ".to_string().concat(error),
        },
        LaunchStep::EnsureData => "data directory ".to_string().concat(
            config.mysql.data_dir.as_str(),
        ).concat(": ").concat(error),
        LaunchStep::CreateJob => "CreateJobObjectW: ".to_string().concat(error),
        LaunchStep::ConfigureJob => "SetInformationJobObject: ".to_string().concat(error),
        LaunchStep::InitializeData => "database initialization: ".to_string().concat(error),
        LaunchStep::SpawnChild => "spawn: ".to_string().concat(error),
        LaunchStep::OpenChild => "OpenProcess: ".to_string().concat(error),
        LaunchStep::AssignChild => "AssignProcessToJobObject: ".to_string().concat(error).concat(
            " — service must not start",
        ),
    }
}

/// What to do after a step of a launch. A service is started once every step
/// went well; its port is looked at after the checks. If a step fails the launch ends there, and the child process and
/// the job object are disposed of as far as there are any.
pub fn launch_next(
    svc: Service,
    step: LaunchStep,
    outcome: Result<(), String>,
    config: &RampConfig,
) -> (next: LaunchNext)
    ensures
        match outcome {
            Ok(_) => match step_after(step) {
                Some(following) => next == (if step is ValidateConfig {
                    LaunchNext::Checked(following)
                } else {
                    LaunchNext::Do(following)
                }),
                None => next is Started,
            },
            Err(error) => next matches LaunchNext::Failed { reason, kill_child, close_job } && {
                &&& reason@ == launch_failure(svc, step, error@, config@)
                &&& kill_child == has_child(step)
                &&& close_job == has_job(step)
            },
        },
{
    match outcome {
        Ok(_) => match step {
            LaunchStep::ValidateBinary => LaunchNext::Do(LaunchStep::FindBinary),
            LaunchStep::FindBinary => LaunchNext::Do(LaunchStep::ValidateConfig),
            LaunchStep::ValidateConfig => LaunchNext::Checked(LaunchStep::EnsureData),
            LaunchStep::EnsureData => LaunchNext::Do(LaunchStep::CreateJob),
            LaunchStep::CreateJob => LaunchNext::Do(LaunchStep::ConfigureJob),
            LaunchStep::ConfigureJob => LaunchNext::Do(LaunchStep::InitializeData),
            LaunchStep::InitializeData => LaunchNext::Do(LaunchStep::SpawnChild),
            LaunchStep::SpawnChild => LaunchNext::Do(LaunchStep::OpenChild),
            LaunchStep::OpenChild => LaunchNext::Do(LaunchStep::AssignChild),
            LaunchStep::AssignChild => LaunchNext::Started,
        },
        Err(error) => {
            let reason = failure_text(svc, step, error.as_str(), config);
            let (kill_child, close_job) = match step {
                LaunchStep::ValidateBinary
                | LaunchStep::FindBinary
                | LaunchStep::ValidateConfig
                | LaunchStep::EnsureData
                | LaunchStep::CreateJob => (false, false),
                LaunchStep::ConfigureJob
                | LaunchStep::InitializeData
                | LaunchStep::SpawnChild => (false, true),
                LaunchStep::OpenChild | LaunchStep::AssignChild => (true, true),
            };
            LaunchNext::Failed { reason, kill_child, close_job }
        },
    }
}

/// The step that a launch is at after that many steps have gone well.
pub open spec fn step_reached(steps: nat) -> Option<LaunchStep>
    decreases steps,
{
    if steps == 0 {
        Some(LaunchStep::ValidateBinary)
    } else {
        match step_reached((steps - 1) as nat) {
            Some(step) => step_after(step),
            None => None,
        }
    }
}

/// A launch takes every step once, in order: before a process exists, binary and
/// configuration have been checked and found, the data directory is there and so
/// is a configured job object, and the last step puts the process under that job
/// object.
pub proof fn law_launch_order()
    ensures
        step_reached(0) == Some(LaunchStep::ValidateBinary),
        step_reached(1) == Some(LaunchStep::FindBinary),
        step_reached(2) == Some(LaunchStep::ValidateConfig),
        step_reached(3) == Some(LaunchStep::EnsureData),
        step_reached(4) == Some(LaunchStep::CreateJob),
        step_reached(5) == Some(LaunchStep::ConfigureJob),
        step_reached(6) == Some(LaunchStep::InitializeData),
        step_reached(7) == Some(LaunchStep::SpawnChild),
        step_reached(8) == Some(LaunchStep::OpenChild),
        step_reached(9) == Some(LaunchStep::AssignChild),
        step_reached(10) is None,
{
    reveal_with_fuel(step_reached, 11);
}

/// A launch that fails leaves nothing behind: once a step has made the job
/// object or the child process, every later failure disposes of it.
pub proof fn law_failed_launch_leaves_nothing(step: LaunchStep, later: LaunchStep)
    requires
        step_after(step) == Some(later),
    ensures
        has_job(later) <==> has_job(step) || step is CreateJob,
        has_child(later) <==> has_child(step) || step is SpawnChild,
        has_child(later) ==> has_job(later),
{
}

/// The step that a launch is at after that many steps, if it ends at a step that
/// must not be taken, and every other step goes well.
pub open spec fn step_allowed(
    svc: Service,
    config: ConfigView,
    facts: LaunchFacts,
    steps: nat,
) -> Option<LaunchStep>
    decreases steps,
{
    if steps == 0 {
        Some(LaunchStep::ValidateBinary)
    } else {
        match step_allowed(svc, config, facts, (steps - 1) as nat) {
            Some(step) => if check_fault(svc, config, step, facts) is None {
                step_after(step)
            } else {
                None
            },
            None => None,
        }
    }
}

/// A process is started in this step, or has been.
pub open spec fn runs_processes(step: LaunchStep) -> bool {
    step is InitializeData || step is SpawnChild || has_child(step)
}

/// How many steps come before a step.
spec fn place(step: LaunchStep) -> nat {
    match step {
        LaunchStep::ValidateBinary => 0,
        LaunchStep::FindBinary => 1,
        LaunchStep::ValidateConfig => 2,
        LaunchStep::EnsureData => 3,
        LaunchStep::CreateJob => 4,
        LaunchStep::ConfigureJob => 5,
        LaunchStep::InitializeData => 6,
        LaunchStep::SpawnChild => 7,
        LaunchStep::OpenChild => 8,
        LaunchStep::AssignChild => 9,
    }
}

proof fn lemma_earlier_checks_passed(
    svc: Service,
    config: ConfigView,
    facts: LaunchFacts,
    steps: nat,
    check: LaunchStep,
)
    ensures
        step_allowed(svc, config, facts, steps) matches Some(step) ==> {
            &&& place(step) == steps
            &&& place(check) < steps ==> check_fault(svc, config, check, facts) is None
        },
    decreases steps,
{
    if steps > 0 {
        lemma_earlier_checks_passed(svc, config, facts, (steps - 1) as nat, check);
    }
}

/// No process is started for a service if one of the checks fails: if its
/// binary or its configuration is missing, or something that it needs lies
/// elsewhere or is reached through a symbolic link.
pub proof fn law_no_process_without_checks(
    svc: Service,
    config: ConfigView,
    facts: LaunchFacts,
    check: LaunchStep,
    steps: nat,
    step: LaunchStep,
)
    requires
        check_fault(svc, config, check, facts) is Some,
        step_allowed(svc, config, facts, steps) == Some(step),
    ensures
        !runs_processes(step),
{
    lemma_earlier_checks_passed(svc, config, facts, steps, check);
}

/// An installed service can be launched: if its binary and its configuration
/// exist and nothing is a symbolic link, every check passes.
pub proof fn law_installed_services_can_be_launched(
    svc: Service,
    config: ConfigView,
    facts: LaunchFacts,
    step: LaunchStep,
)
    requires
        install_fault(config.install_dir) is None,
        takes_names(config.install_dir),
        config == built_config(
            config.apache_port,
            config.mysql_port,
            config.php_port,
            config.install_dir,
        ),
        facts.binary_exists && facts.config_exists,
        !facts.binary_is_symlink && !facts.config_dir_is_symlink && !facts.config_is_symlink
            && !facts.data_is_symlink,
    ensures
        check_fault(svc, config, step, facts) is None,
{
    law_installed_paths_are_accepted(config.install_dir);
}

// ---------------------------------------------------------------------------
// Watching a process
// ---------------------------------------------------------------------------
/// What the watcher of a process finds when it looks.
#[derive(Debug)]
pub enum WatchProbe {
    /// The service is to be shut down: somebody wants the process to stop.
    StopRequested,
    /// The process is of no use any more: the service has crashed, or another
    /// process takes its place.
    GivenUp,
    /// The process has exited.
    Exited(Option<i32>),
    /// The process is alive.
    Alive,
    /// It cannot be told what the process is doing.
    Unknown,
}

/// What the watcher does next.
#[derive(Debug)]
pub enum WatchStep {
    /// Ask the process to stop, and look again.
    SignalStop,
    /// Kill the whole process tree, and look again once that has happened.
    ForceKill,
    /// Report the event, and end.
    Report(Event),
    /// Look again after a pause, given in milliseconds.
    Wait(u64),
}

/// The pause between two looks at a process, in milliseconds.
pub const WATCH_INTERVAL: u64 = 100;

/// What the watcher of a process does about what it has found. `stopping_for`
/// says for how many milliseconds the process has been meant to end, if it is.
/// A process that is to stop is first asked to, and killed only if it is still
/// alive after the grace period. However a process ends, its end is reported.
pub open spec fn watch_reaction(
    svc: Service,
    stopping_for: Option<nat>,
    probe: WatchProbe,
) -> WatchStep {
    match probe {
        WatchProbe::StopRequested => WatchStep::SignalStop,
        WatchProbe::GivenUp => WatchStep::ForceKill,
        WatchProbe::Exited(exit_code) => WatchStep::Report(
            Event::ProcessExit {
                service: svc,
                exit_code: if stopping_for is Some {
                    None
                } else {
                    exit_code
                },
            },
        ),
        WatchProbe::Alive => match stopping_for {
            Some(time) if time >= SHUTDOWN_GRACE_PERIOD => WatchStep::ForceKill,
            _ => WatchStep::Wait(WATCH_INTERVAL),
        },
        WatchProbe::Unknown => WatchStep::Report(
            Event::ProcessExit { service: svc, exit_code: None },
        ),
    }
}

pub fn watch_step(svc: Service, stopping_for: Option<u64>, probe: WatchProbe) -> (step: WatchStep)
    ensures
        step == watch_reaction(
            svc,
            match stopping_for {
                Some(time) => Some(time as nat),
                None => None,
            },
            probe,
        ),
{
    match probe {
        WatchProbe::StopRequested => WatchStep::SignalStop,
        WatchProbe::GivenUp => WatchStep::ForceKill,
        WatchProbe::Exited(exit_code) => {
            let shown = match stopping_for {
                Some(_) => None,
                None => exit_code,
            };
            WatchStep::Report(Event::ProcessExit { service: svc, exit_code: shown })
        },
        WatchProbe::Alive => match stopping_for {
            Some(time) => if time >= SHUTDOWN_GRACE_PERIOD {
                WatchStep::ForceKill
            } else {
                WatchStep::Wait(WATCH_INTERVAL)
            },
            None => WatchStep::Wait(WATCH_INTERVAL),
        },
        WatchProbe::Unknown => WatchStep::Report(
            Event::ProcessExit { service: svc, exit_code: None },
        ),
    }
}

/// The looks of a watcher: when they were, in milliseconds, and what was found.
pub type Looks = Seq<(nat, WatchProbe)>;

/// The moment from which on the process is meant to end: that of the first look
/// that found a request to stop it, or found it given up.
pub open spec fn stopping_since(looks: Looks) -> Option<nat>
    decreases looks.len(),
{
    if looks.len() == 0 {
        None
    } else {
        match stopping_since(looks.drop_last()) {
            Some(time) => Some(time),
            None => if looks.last().1 is StopRequested || looks.last().1 is GivenUp {
                Some(looks.last().0)
            } else {
                None
            },
        }
    }
}

/// What the watcher does after the look at place `i`.
pub open spec fn watched(svc: Service, looks: Looks, i: int) -> WatchStep {
    let stopping_for = match stopping_since(looks.take(i)) {
        Some(time) => Some((looks[i].0 - time) as nat),
        None => None,
    };
    watch_reaction(svc, stopping_for, looks[i].1)
}

/// The end of a process is reported exactly once: when it is found to have ended,
/// or when nothing can be told of it any more. The report gives the exit code of
/// a process that exited by itself.
pub proof fn law_ends_are_reported_once(svc: Service, looks: Looks, n: int)
    requires
        0 <= n <= looks.len(),
        forall|i: int|
            0 <= i < n ==> !((#[trigger] looks[i]).1 is Exited) && !(looks[i].1 is Unknown),
        n < looks.len() ==> looks[n].1 is Exited || looks[n].1 is Unknown,
    ensures
        forall|i: int| 0 <= i < n ==> !((#[trigger] watched(svc, looks, i)) is Report),
        n < looks.len() ==> watched(svc, looks, n) == WatchStep::Report(
            Event::ProcessExit {
                service: svc,
                exit_code: match looks[n].1 {
                    WatchProbe::Exited(exit_code) if stopping_since(looks.take(n)) is None =>
                        exit_code,
                    _ => None,
                },
            },
        ),
{
    assert forall|i: int| 0 <= i < n implies !((#[trigger] watched(svc, looks, i)) is Report) by {
        assert(!(looks[i].1 is Exited) && !(looks[i].1 is Unknown));
    }
}

proof fn lemma_stopping_since(looks: Looks)
    ensures
        stopping_since(looks) matches Some(time) ==> exists|j: int|
            0 <= j < looks.len() && (#[trigger] looks[j]).0 == time && (looks[j].1 is StopRequested
                || looks[j].1 is GivenUp),
    decreases looks.len(),
{
    if looks.len() > 0 {
        lemma_stopping_since(looks.drop_last());
        if let Some(time) = stopping_since(looks.drop_last()) {
            let j = choose|j: int|
                0 <= j < looks.drop_last().len() && (#[trigger] looks.drop_last()[j]).0 == time && (
                looks.drop_last()[j].1 is StopRequested || looks.drop_last()[j].1 is GivenUp);
            assert(looks[j] == looks.drop_last()[j]);
        } else if stopping_since(looks) is Some {
            assert(looks[looks.len() - 1] == looks.last());
        }
    }
}

/// A process that has not been given up is killed only if it is still alive when
/// the whole grace period has passed since it was asked to stop.
pub proof fn law_killed_after_the_grace_period(svc: Service, looks: Looks, i: int)
    requires
        0 <= i < looks.len(),
        forall|j: int|
            0 <= j <= i ==> !((#[trigger] looks[j]).1 is GivenUp) && looks[j].0 <= looks[i].0,
        watched(svc, looks, i) is ForceKill,
    ensures
        looks[i].1 is Alive,
        exists|j: int|
            0 <= j < i && (#[trigger] looks[j]).1 is StopRequested && watched(svc, looks, j)
                == WatchStep::SignalStop && looks[i].0 - looks[j].0 >= SHUTDOWN_GRACE_PERIOD,
{
    assert(!(looks[i].1 is GivenUp));
    let earlier = looks.take(i);
    lemma_stopping_since(earlier);
    let time = stopping_since(earlier)->0;
    let j = choose|j: int|
        0 <= j < earlier.len() && (#[trigger] earlier[j]).0 == time && (
        earlier[j].1 is StopRequested || earlier[j].1 is GivenUp);
    assert(looks[j] == earlier[j]);
    assert(!(looks[j].1 is GivenUp));
}

// ---------------------------------------------------------------------------
// What every launch and every watcher does
// ---------------------------------------------------------------------------
/// With what each service is started.
pub proof fn law_command_lines(config: ConfigView)
    ensures
        binary(Service::Apache, config) == config.apache_bin,
        binary(Service::Mysql, config) == config.mysql_bin,
        binary(Service::Php, config) == config.php_bin,
        arguments(Service::Apache, config) == seq!["-f"@, config.apache_conf, "-DFOREGROUND"@],
        arguments(Service::Mysql, config) == seq![
            "--defaults-file="@ + config.mysql_ini,
            "--console"@,
        ],
        arguments(Service::Php, config) == seq!["-b"@, "127.0.0.1:"@ + decimal(
            config.php_port as nat,
        )],
        config_file(Service::Apache, config) == Some(config.apache_conf),
        config_file(Service::Mysql, config) == Some(config.mysql_ini),
        config_file(Service::Php, config) is None,
        initialize_arguments(config).contains("--initialize"@),
        initialize_arguments(config)[0] == "--defaults-file="@ + config.mysql_ini,
        initialize_arguments(config)[1] == "--datadir="@ + config.mysql_data_dir,
{
    assert(initialize_arguments(config)[2] == "--initialize"@);
}

/// Every service runs in its own directory, and its binary and its configuration
/// lie there; the configuration file stands directly in the directory that is
/// checked for it.
pub proof fn law_services_keep_to_their_directories(
    svc: Service,
    apache: u16,
    mysql: u16,
    php: u16,
    root: Seq<char>,
)
    requires
        is_rooted(root),
    ensures
        ({
            let config = built_config(apache, mysql, php, root);
            let own = match svc {
                Service::Apache => "apache"@,
                Service::Mysql => "mysql"@,
                Service::Php => "php"@,
            };
            &&& parts(work_dir(svc, config)) == parts(root) + seq![PartView::Name(own)]
            &&& lies_in(binary(svc, config), work_dir(svc, config))
            &&& config_file(svc, config) matches Some(file) ==> parts(file).drop_last() == parts(
                config_dir(svc, config),
            )
        }),
{
    law_service_directories(root);
    let config = built_config(apache, mysql, php, root);
    let at = parts(root);
    match svc {
        Service::Apache => {
            law_layout_of_apache(root);
            let own = PartView::Name("apache"@);
            lemma_three_deep(at, own, PartView::Name("bin"@), PartView::Name("httpd.exe"@));
            lemma_three_deep(at, own, PartView::Name("conf"@), PartView::Name("httpd.conf"@));
        },
        Service::Mysql => {
            law_layout_of_mysql(root);
            let own = PartView::Name("mysql"@);
            lemma_three_deep(at, own, PartView::Name("bin"@), PartView::Name("mysqld.exe"@));
            lemma_two_deep(at, own, PartView::Name("my.ini"@));
        },
        Service::Php => {
            law_layout_of_php(root);
            lemma_two_deep(at, PartView::Name("php"@), PartView::Name("php-cgi.exe"@));
        },
    }
}

proof fn lemma_two_deep(at: Seq<PartView>, a: PartView, b: PartView)
    ensures
        (at + seq![a]).is_prefix_of(at + seq![a, b]),
        (at + seq![a, b]).drop_last() == at + seq![a],
{
    assert((at + seq![a, b]).drop_last() =~= at + seq![a]);
    assert((at + seq![a, b]).subrange(0, (at + seq![a]).len() as int) =~= at + seq![a]);
}

proof fn lemma_three_deep(at: Seq<PartView>, a: PartView, b: PartView, c: PartView)
    ensures
        (at + seq![a]).is_prefix_of(at + seq![a, b, c]),
        (at + seq![a, b, c]).drop_last() == at + seq![a, b],
{
    assert((at + seq![a, b, c]).drop_last() =~= at + seq![a, b]);
    assert((at + seq![a, b, c]).subrange(0, (at + seq![a]).len() as int) =~= at + seq![a]);
}

/// A step may be taken exactly if what it needs is in order: the binary lies in
/// the install directory, is no symbolic link, and exists; so does the
/// configuration of Apache and MySQL, whose directory is no symbolic link either;
/// and the data of MySQL lies there and is no symbolic link.
pub proof fn law_checks(svc: Service, config: ConfigView, step: LaunchStep, facts: LaunchFacts)
    ensures
        check_fault(svc, config, step, facts) is None <==> match step {
            LaunchStep::ValidateBinary => !facts.binary_is_symlink && path_fault(
                binary(svc, config),
                config.install_dir,
                false,
                false,
            ) is None,
            LaunchStep::FindBinary => facts.binary_exists,
            LaunchStep::ValidateConfig => match config_file(svc, config) {
                Some(file) => {
                    &&& facts.config_exists
                    &&& !facts.config_is_symlink
                    &&& !facts.config_dir_is_symlink
                    &&& path_fault(file, config.install_dir, false, false) is None
                    &&& path_fault(
                        config_dir(svc, config),
                        config.install_dir,
                        false,
                        false,
                    ) is None
                },
                None => true,
            },
            LaunchStep::EnsureData => svc is Mysql ==> !facts.data_is_symlink && path_fault(
                config.mysql_data_dir,
                config.install_dir,
                false,
                false,
            ) is None,
            _ => true,
        },
{
}

/// A launch that fails kills the child process exactly if there is one already,
/// and closes the job object exactly if there is one already.
pub proof fn law_failed_launches_clean_up(step: LaunchStep)
    ensures
        has_child(step) <==> step is OpenChild || step is AssignChild,
        has_job(step) <==> !(step is ValidateBinary) && !(step is FindBinary) && !(
        step is ValidateConfig) && !(step is EnsureData) && !(step is CreateJob),
{
}

/// What is told of a failed launch: which step failed and why.
pub proof fn law_failure_texts(svc: Service, error: Seq<char>, config: ConfigView)
    ensures
        launch_failure(svc, LaunchStep::ValidateBinary, error, config) == "binary validation: "@
            + error,
        launch_failure(svc, LaunchStep::FindBinary, error, config) == "binary not found: "@
            + binary(svc, config),
        config_file(svc, config) matches Some(file) ==> launch_failure(
            svc,
            LaunchStep::ValidateConfig,
            error,
            config,
        ) == "config "@ + file + ": "@ + error,
        launch_failure(svc, LaunchStep::EnsureData, error, config) == "data directory "@
            + config.mysql_data_dir + ": "@ + error,
        launch_failure(svc, LaunchStep::CreateJob, error, config) == "CreateJobObjectW: "@ + error,
        launch_failure(svc, LaunchStep::ConfigureJob, error, config)
            == "SetInformationJobObject: "@ + error,
        launch_failure(svc, LaunchStep::InitializeData, error, config)
            == "database initialization: "@ + error,
        launch_failure(svc, LaunchStep::SpawnChild, error, config) == "spawn: "@ + error,
        launch_failure(svc, LaunchStep::OpenChild, error, config) == "OpenProcess: "@ + error,
        launch_failure(svc, LaunchStep::AssignChild, error, config)
            == "AssignProcessToJobObject: "@ + error + " — service must not start"@,
{
}

/// What a watcher does, whatever the service: it asks a process to stop when that
/// is wanted, kills it when it is given up or has outlived five seconds, and
/// reports its end, with its exit code only if it was not meant to end.
pub proof fn law_watcher(svc: Service, stopping_for: Option<nat>, exit_code: Option<i32>)
    ensures
        watch_reaction(svc, stopping_for, WatchProbe::StopRequested) is SignalStop,
        watch_reaction(svc, stopping_for, WatchProbe::GivenUp) is ForceKill,
        watch_reaction(svc, stopping_for, WatchProbe::Alive) is ForceKill <==> stopping_for is Some
            && stopping_for->0 >= 5_000,
        watch_reaction(svc, stopping_for, WatchProbe::Alive) is Wait <==> !(stopping_for is Some
            && stopping_for->0 >= 5_000),
        watch_reaction(svc, None, WatchProbe::Exited(exit_code)) == WatchStep::Report(
            Event::ProcessExit { service: svc, exit_code },
        ),
        stopping_for is Some ==> watch_reaction(svc, stopping_for, WatchProbe::Exited(exit_code))
            == WatchStep::Report(Event::ProcessExit { service: svc, exit_code: None }),
        watch_reaction(svc, stopping_for, WatchProbe::Unknown) == WatchStep::Report(
            Event::ProcessExit { service: svc, exit_code: None },
        ),
{
}

} // verus!
