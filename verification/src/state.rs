//! The state of the whole system: three services, their configuration and
//! their ports.

use vstd::prelude::*;

verus! {

/// What a service is doing.
#[derive(Debug, Clone, Copy, PartialEq, Eq, Structural)]
pub enum ServiceState {
    Stopped,
    Starting,
    Running,
    Stopping,
    Crashed,
    Error,
}

impl ServiceState {
    /// The name of the state, as the user sees it.
    pub open spec fn name(self) -> Seq<char> {
        match self {
            ServiceState::Stopped => "Stopped"@,
            ServiceState::Starting => "Starting"@,
            ServiceState::Running => "Running"@,
            ServiceState::Stopping => "Stopping"@,
            ServiceState::Crashed => "Crashed"@,
            ServiceState::Error => "Error"@,
        }
    }

    pub fn label(self) -> (text: &'static str)
        ensures
            text@ == self.name(),
    {
        match self {
            ServiceState::Stopped => "Stopped",
            ServiceState::Starting => "Starting",
            ServiceState::Running => "Running",
            ServiceState::Stopping => "Stopping",
            ServiceState::Crashed => "Crashed",
            ServiceState::Error => "Error",
        }
    }
}

/// What the user wants a service to do.
#[derive(Debug, Clone, Copy, PartialEq, Eq, Structural)]
pub enum DesiredServiceState {
    Running,
    Stopped,
}

#[derive(Debug, Clone, Copy, PartialEq, Eq, Hash, Structural)]
pub enum Service {
    Apache,
    Mysql,
    Php,
}

impl Service {
    /// The name of the service, as the user sees it.
    pub open spec fn name(self) -> Seq<char> {
        match self {
            Service::Apache => "Apache"@,
            Service::Mysql => "MySQL"@,
            Service::Php => "PHP"@,
        }
    }

    pub fn label(self) -> (text: &'static str)
        ensures
            text@ == self.name(),
    {
        match self {
            Service::Apache => "Apache",
            Service::Mysql => "MySQL",
            Service::Php => "PHP",
        }
    }
}

/// One service as the reducer sees it.
#[derive(Debug, Clone)]
pub struct ServiceStatus {
    pub state: ServiceState,
    pub desired: DesiredServiceState,
    pub retry_count: u32,
    pub last_error: Option<String>,
    pub health_fail_streak: u32,
}

/// The value of a `ServiceStatus`.
#[verifier::ext_equal]
pub struct StatusView {
    pub state: ServiceState,
    pub desired: DesiredServiceState,
    pub retry_count: nat,
    pub last_error: Option<Seq<char>>,
    pub health_fail_streak: nat,
}

/// The text of an optional message.
pub open spec fn text_of(message: Option<String>) -> Option<Seq<char>> {
    match message {
        Some(text) => Some(text@),
        None => None,
    }
}

impl View for ServiceStatus {
    type V = StatusView;

    open spec fn view(&self) -> StatusView {
        StatusView {
            state: self.state,
            desired: self.desired,
            retry_count: self.retry_count as nat,
            last_error: text_of(self.last_error),
            health_fail_streak: self.health_fail_streak as nat,
        }
    }
}

impl StatusView {
    /// A service that nobody has asked for yet.
    pub open spec fn fresh() -> StatusView {
        StatusView {
            state: ServiceState::Stopped,
            desired: DesiredServiceState::Stopped,
            retry_count: 0,
            last_error: None,
            health_fail_streak: 0,
        }
    }

    /// What holds of a service at all times: it is never retried more often
    /// than allowed, and it does not stay running through as many failed
    /// health checks in a row as count as a crash.
    pub open spec fn wf(self) -> bool {
        &&& self.retry_count <= MAX_RETRIES
        &&& self.state is Running ==> self.health_fail_streak < HEALTH_FAIL_THRESHOLD
    }
}

impl ServiceStatus {
    pub fn new() -> (status: Self)
        ensures
            status.state is Stopped,
            status.desired is Stopped,
            status.retry_count == 0,
            status.last_error is None,
            status.health_fail_streak == 0,
            status@ == StatusView::fresh(),
            status@.wf(),
    {
        ServiceStatus {
            state: ServiceState::Stopped,
            desired: DesiredServiceState::Stopped,
            retry_count: 0,
            last_error: None,
            health_fail_streak: 0,
        }
    }
}

#[derive(Debug, Clone)]
pub struct ApacheConfig {
    pub port: u16,
    pub bin: String,
    pub conf: String,
}

#[derive(Debug, Clone)]
pub struct MysqlConfig {
    pub port: u16,
    pub bin: String,
    pub data_dir: String,
    pub ini: String,
}

#[derive(Debug, Clone)]
pub struct PhpConfig {
    pub port: u16,
    pub bin: String,
    pub ini: String,
}

/// Where everything is installed and which ports it listens on. Paths are kept
/// as their text.
#[derive(Debug, Clone)]
pub struct RampConfig {
    pub install_dir: String,
    pub apache: ApacheConfig,
    pub mysql: MysqlConfig,
    pub php: PhpConfig,
}

/// The value of a `RampConfig`.
#[verifier::ext_equal]
pub struct ConfigView {
    pub install_dir: Seq<char>,
    pub apache_port: u16,
    pub apache_bin: Seq<char>,
    pub apache_conf: Seq<char>,
    pub mysql_port: u16,
    pub mysql_bin: Seq<char>,
    pub mysql_data_dir: Seq<char>,
    pub mysql_ini: Seq<char>,
    pub php_port: u16,
    pub php_bin: Seq<char>,
    pub php_ini: Seq<char>,
}

impl View for RampConfig {
    type V = ConfigView;

    open spec fn view(&self) -> ConfigView {
        ConfigView {
            install_dir: self.install_dir@,
            apache_port: self.apache.port,
            apache_bin: self.apache.bin@,
            apache_conf: self.apache.conf@,
            mysql_port: self.mysql.port,
            mysql_bin: self.mysql.bin@,
            mysql_data_dir: self.mysql.data_dir@,
            mysql_ini: self.mysql.ini@,
            php_port: self.php.port,
            php_bin: self.php.bin@,
            php_ini: self.php.ini@,
        }
    }
}

impl RampConfig {
    /// The port of a service.
    pub open spec fn port_of(self, svc: Service) -> u16 {
        match svc {
            Service::Apache => self.apache.port,
            Service::Mysql => self.mysql.port,
            Service::Php => self.php.port,
        }
    }

    pub fn port(&self, svc: Service) -> (port: u16)
        ensures
            port == self.port_of(svc),
            svc is Apache ==> port == self.apache.port,
            svc is Mysql ==> port == self.mysql.port,
            svc is Php ==> port == self.php.port,
    {
        match svc {
            Service::Apache => self.apache.port,
            Service::Mysql => self.mysql.port,
            Service::Php => self.php.port,
        }
    }
}

#[derive(Debug, Clone, Copy, PartialEq, Eq, Structural)]
pub struct PortState {
    pub apache_bound: bool,
    pub mysql_bound: bool,
    pub php_bound: bool,
}

impl PortState {
    pub fn new() -> (ports: Self)
        ensures
            !ports.apache_bound,
            !ports.mysql_bound,
            !ports.php_bound,
    {
        PortState { apache_bound: false, mysql_bound: false, php_bound: false }
    }
}

/// The complete application state. Only the reducer changes it.
#[derive(Debug, Clone)]
pub struct AppState {
    pub apache: ServiceStatus,
    pub mysql: ServiceStatus,
    pub php: ServiceStatus,
    pub config: RampConfig,
    pub ports: PortState,
}

/// The value of an `AppState`.
#[verifier::ext_equal]
pub struct AppView {
    pub apache: StatusView,
    pub mysql: StatusView,
    pub php: StatusView,
    pub config: RampConfig,
    pub ports: PortState,
}

impl View for AppState {
    type V = AppView;

    open spec fn view(&self) -> AppView {
        AppView {
            apache: self.apache@,
            mysql: self.mysql@,
            php: self.php@,
            config: self.config,
            ports: self.ports,
        }
    }
}

impl AppView {
    /// The status of one service.
    pub open spec fn of(self, svc: Service) -> StatusView {
        match svc {
            Service::Apache => self.apache,
            Service::Mysql => self.mysql,
            Service::Php => self.php,
        }
    }

    /// The same state with the status of one service replaced.
    pub open spec fn with(self, svc: Service, status: StatusView) -> AppView {
        match svc {
            Service::Apache => AppView { apache: status, ..self },
            Service::Mysql => AppView { mysql: status, ..self },
            Service::Php => AppView { php: status, ..self },
        }
    }

    /// What holds of the whole state at all times.
    pub open spec fn wf(self) -> bool {
        self.apache.wf() && self.mysql.wf() && self.php.wf()
    }
}

impl AppState {
    pub fn new(config: RampConfig) -> (state: Self)
        ensures
            state@.apache == StatusView::fresh(),
            state@.mysql == StatusView::fresh(),
            state@.php == StatusView::fresh(),
            state.config == config,
            !state.ports.apache_bound && !state.ports.mysql_bound && !state.ports.php_bound,
            state@.wf(),
    {
        AppState {
            apache: ServiceStatus::new(),
            mysql: ServiceStatus::new(),
            php: ServiceStatus::new(),
            config,
            ports: PortState::new(),
        }
    }

    pub fn service(&self, svc: Service) -> (status: &ServiceStatus)
        ensures
            status@ == self@.of(svc),
            *status == (match svc {
                Service::Apache => self.apache,
                Service::Mysql => self.mysql,
                Service::Php => self.php,
            }),
    {
        match svc {
            Service::Apache => &self.apache,
            Service::Mysql => &self.mysql,
            Service::Php => &self.php,
        }
    }

    pub fn service_mut(&mut self, svc: Service) -> (status: &mut ServiceStatus)
        ensures
            status@ == old(self)@.of(svc),
            *status == (match svc {
                Service::Apache => old(self).apache,
                Service::Mysql => old(self).mysql,
                Service::Php => old(self).php,
            }),
            *final(self) == (match svc {
                Service::Apache => AppState { apache: *final(status), ..*old(self) },
                Service::Mysql => AppState { mysql: *final(status), ..*old(self) },
                Service::Php => AppState { php: *final(status), ..*old(self) },
            }),
            final(self)@ == old(self)@.with(svc, final(status)@),
    {
        match svc {
            Service::Apache => &mut self.apache,
            Service::Mysql => &mut self.mysql,
            Service::Php => &mut self.php,
        }
    }
}

/// Kept across restarts: what the user wants running.
#[derive(Debug, Clone, Copy, PartialEq, Eq, Structural)]
pub struct PersistedState {
    pub apache_desired: DesiredServiceState,
    pub mysql_desired: DesiredServiceState,
    pub php_desired: DesiredServiceState,
}

impl PersistedState {
    /// What is kept about one service.
    pub open spec fn desired(self, svc: Service) -> DesiredServiceState {
        match svc {
            Service::Apache => self.apache_desired,
            Service::Mysql => self.mysql_desired,
            Service::Php => self.php_desired,
        }
    }

    pub fn default_stopped() -> (kept: Self)
        ensures
            kept.apache_desired is Stopped,
            kept.mysql_desired is Stopped,
            kept.php_desired is Stopped,
            forall|svc: Service| #[trigger] kept.desired(svc) is Stopped,
    {
        PersistedState {
            apache_desired: DesiredServiceState::Stopped,
            mysql_desired: DesiredServiceState::Stopped,
            php_desired: DesiredServiceState::Stopped,
        }
    }

    /// What is kept of a state: what is wanted of each service.
    pub open spec fn kept(state: AppView) -> PersistedState {
        PersistedState {
            apache_desired: state.apache.desired,
            mysql_desired: state.mysql.desired,
            php_desired: state.php.desired,
        }
    }

    pub fn of_state(state: &AppState) -> (kept: Self)
        ensures
            kept == PersistedState::kept(state@),
            kept.apache_desired == state.apache.desired,
            kept.mysql_desired == state.mysql.desired,
            kept.php_desired == state.php.desired,
            forall|svc: Service| #[trigger] kept.desired(svc) == state@.of(svc).desired,
    {
        PersistedState {
            apache_desired: state.apache.desired,
            mysql_desired: state.mysql.desired,
            php_desired: state.php.desired,
        }
    }
}

/// How often a crashed service is started again before it counts as failed.
pub const MAX_RETRIES: u32 = 4;

/// The pauses before the retries, in seconds.
pub const RETRY_DELAYS: [u64; 4] = [1, 2, 4, 8];

/// The pause before the retry that follows `retry_count` earlier ones, in
/// seconds: it doubles each time, and after the last retry there is none.
pub open spec fn backoff(retry_count: nat) -> Option<u64> {
    if retry_count < MAX_RETRIES {
        Some(vstd::arithmetic::power2::pow2(retry_count) as u64)
    } else {
        None
    }
}

pub fn retry_delay(retry_count: u32) -> (delay: Option<u64>)
    ensures
        delay == backoff(retry_count as nat),
{
    proof {
        vstd::arithmetic::power2::lemma2_to64();
    }
    if retry_count < MAX_RETRIES {
        Some(RETRY_DELAYS[retry_count as usize])
    } else {
        None
    }
}

/// How long Apache may take to become ready, in milliseconds.
pub const APACHE_READY_TIMEOUT: u64 = 3_000;

/// How long MySQL may take to become ready, in milliseconds.
pub const MYSQL_READY_TIMEOUT: u64 = 5_000;

/// How long PHP may take to become ready, in milliseconds.
pub const PHP_READY_TIMEOUT: u64 = 5_000;

/// The pause between two health checks, in milliseconds.
pub const HEALTH_CHECK_INTERVAL: u64 = 2_000;

/// How many failed health checks in a row count as a crash.
pub const HEALTH_FAIL_THRESHOLD: u32 = 3;

/// How long a service may take to stop, in milliseconds.
pub const SHUTDOWN_GRACE_PERIOD: u64 = 5_000;

/// How long a repeated command is ignored, in nanoseconds.
pub const COMMAND_DEBOUNCE: u64 = 500_000_000;

/// A crashed service is retried four times, after one second, then two, then
/// four, then eight.
pub proof fn law_retry_delays(retry_count: nat)
    ensures
        backoff(retry_count) is Some <==> retry_count < 4,
        backoff(0) == Some(1u64),
        retry_count < 3 ==> backoff(retry_count + 1)->0 == 2 * backoff(retry_count)->0,
{
    vstd::arithmetic::power2::lemma2_to64();
}

/// What is kept of a state is what is wanted of each service, and each service
/// listens on its own port.
pub proof fn law_each_service_has_its_own(state: AppView, config: RampConfig)
    ensures
        PersistedState::kept(state).apache_desired == state.apache.desired,
        PersistedState::kept(state).mysql_desired == state.mysql.desired,
        PersistedState::kept(state).php_desired == state.php.desired,
        PersistedState::kept(state).desired(Service::Apache) == state.apache.desired,
        PersistedState::kept(state).desired(Service::Mysql) == state.mysql.desired,
        PersistedState::kept(state).desired(Service::Php) == state.php.desired,
        state.of(Service::Apache) == state.apache,
        state.of(Service::Mysql) == state.mysql,
        state.of(Service::Php) == state.php,
        config.port_of(Service::Apache) == config.apache.port,
        config.port_of(Service::Mysql) == config.mysql.port,
        config.port_of(Service::Php) == config.php.port,
{
}

/// Replacing the status of a service replaces nothing else.
pub proof fn law_replaced_status(state: AppView, svc: Service, status: StatusView, other: Service)
    ensures
        state.with(svc, status).of(svc) == status,
        other != svc ==> state.with(svc, status).of(other) == state.of(other),
        state.with(svc, status).config == state.config,
        state.with(svc, status).ports == state.ports,
{
}

/// The names by which the user knows the services and their states.
pub proof fn law_names()
    ensures
        Service::Apache.name() == "Apache"@,
        Service::Mysql.name() == "MySQL"@,
        Service::Php.name() == "PHP"@,
        ServiceState::Stopped.name() == "Stopped"@,
        ServiceState::Starting.name() == "Starting"@,
        ServiceState::Running.name() == "Running"@,
        ServiceState::Stopping.name() == "Stopping"@,
        ServiceState::Crashed.name() == "Crashed"@,
        ServiceState::Error.name() == "Error"@,
{
}

} // verus!
