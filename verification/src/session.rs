//! The event loop: which events are let through, and what follows from them.

use crate::events::{effects_view, Event, SideEffect};
use crate::laws::{initial, law_well_formedness_is_kept};
use crate::reducer::{reduce, reducer};
use crate::state::{
    AppState, AppView, DesiredServiceState, PersistedState, RampConfig, Service, ServiceState,
    StatusView, COMMAND_DEBOUNCE, SHUTDOWN_GRACE_PERIOD,
};
use vstd::prelude::*;
use vstd::string::StringExecFns;

verus! {

// ---------------------------------------------------------------------------
// Repeated commands
// ---------------------------------------------------------------------------
/// What tells a command from the others: what is to be done, and to whom. Other
/// events have no such key.
pub open spec fn command_key(event: Event) -> Option<Seq<char>> {
    match event {
        Event::StartService(svc) => Some("start:"@ + svc.name()),
        Event::StopService(svc) => Some("stop:"@ + svc.name()),
        Event::RestartService(svc) => Some("restart:"@ + svc.name()),
        _ => None,
    }
}

pub fn debounce_key(event: &Event) -> (key: Option<String>)
    ensures
        match key {
            Some(text) => command_key(*event) == Some(text@),
            None => command_key(*event) is None,
        },
{
    match event {
        Event::StartService(svc) => Some("start:".to_string().concat(svc.label())),
        Event::StopService(svc) => Some("stop:".to_string().concat(svc.label())),
        Event::RestartService(svc) => Some("restart:".to_string().concat(svc.label())),
        _ => None,
    }
}

/// Two commands have the same key just if they are the same command.
pub proof fn law_keys_tell_commands_apart(a: Event, b: Event)
    requires
        command_key(a) is Some,
        command_key(b) is Some,
    ensures
        command_key(a) == command_key(b) <==> a == b,
{
    reveal_strlit("start:");
    reveal_strlit("stop:");
    reveal_strlit("restart:");
    reveal_strlit("Apache");
    reveal_strlit("MySQL");
    reveal_strlit("PHP");
    let ka = command_key(a)->0;
    let kb = command_key(b)->0;
    if ka == kb {
        assert(ka[0] == kb[0] && ka[2] == kb[2]);
        assert(ka[6] == kb[6]);
        assert(ka[8] == kb[8]);
    }
}

/// The time from one moment to another is shorter than commands are held back
/// for. A clock that went back counts as no time at all.
pub open spec fn too_soon(last: u64, now: u64) -> bool {
    now - last < COMMAND_DEBOUNCE
}

/// An event is let through: it is no command, or the same command was not let
/// through just before.
pub open spec fn let_through(last: Map<Seq<char>, u64>, event: Event, now: u64) -> bool {
    command_key(event) matches Some(key) ==> last.contains_key(key) ==> !too_soon(last[key], now)
}

/// When which command was last let through, after an event.
pub open spec fn noted(last: Map<Seq<char>, u64>, event: Event, now: u64) -> Map<Seq<char>, u64> {
    match command_key(event) {
        Some(key) if let_through(last, event, now) => last.insert(key, now),
        _ => last,
    }
}

/// Remembers when each command was last let through. Times are in nanoseconds
/// from a fixed moment.
#[derive(Debug)]
pub struct Debouncer {
    keys: Vec<String>,
    times: Vec<u64>,
}

impl View for Debouncer {
    type V = Map<Seq<char>, u64>;

    closed spec fn view(&self) -> Map<Seq<char>, u64> {
        Map::new(
            |key: Seq<char>| self.holds(key),
            |key: Seq<char>| self.times@[self.place(key)],
        )
    }
}

impl Debouncer {
    spec fn at(self, i: int, key: Seq<char>) -> bool {
        0 <= i < self.keys@.len() && self.keys@[i]@ == key
    }

    spec fn holds(self, key: Seq<char>) -> bool {
        exists|i: int| self.at(i, key)
    }

    spec fn place(self, key: Seq<char>) -> int {
        choose|i: int| self.at(i, key)
    }

    /// Every command is noted once.
    pub closed spec fn wf(self) -> bool {
        &&& self.keys@.len() == self.times@.len()
        &&& forall|i: int, j: int, key: Seq<char>|
            #[trigger] self.at(i, key) && #[trigger] self.at(j, key) ==> i == j
    }

    pub fn new() -> (debouncer: Self)
        ensures
            debouncer.wf(),
            debouncer@ == Map::<Seq<char>, u64>::empty(),
    {
        let debouncer = Debouncer { keys: Vec::new(), times: Vec::new() };
        assert(debouncer@ =~= Map::empty());
        debouncer
    }

    fn find(&self, key: &String) -> (found: Option<usize>)
        requires
            self.wf(),
        ensures
            match found {
                Some(i) => self.at(i as int, key@) && self@.contains_key(key@) && self@[key@]
                    == self.times@[i as int],
                None => !self@.contains_key(key@),
            },
    {
        let mut i: usize = 0;
        while i < self.keys.len()
            invariant
                self.wf(),
                i <= self.keys@.len(),
                forall|k: int| 0 <= k < i ==> !(#[trigger] self.at(k, key@)),
            decreases self.keys@.len() - i,
        {
            if self.keys[i] == *key {
                assert(self.at(i as int, key@));
                return Some(i);
            }
            i = i + 1;
        }
        None
    }

    /// Whether an event is let through at this moment, which is then noted.
    pub fn accept(&mut self, event: &Event, now: u64) -> (accepted: bool)
        requires
            old(self).wf(),
        ensures
            final(self).wf(),
            accepted == let_through(old(self)@, *event, now),
            final(self)@ == noted(old(self)@, *event, now),
    {
        let key = match debounce_key(event) {
            Some(key) => key,
            None => {
                return true;
            },
        };
        let ghost before = *self;
        if let Some(i) = self.find(&key) {
            let last: u64 = self.times[i];
            if now < last || now - last < COMMAND_DEBOUNCE {
                return false;
            }
            self.times.set(i, now);
            assert forall|j: int, k: Seq<char>| #[trigger] self.at(j, k) == before.at(j, k) by {
                if j == i {
                    assert(self.keys@[j] == before.keys@[j]);
                }
            }
            assert(self.wf());
            assert(self@ =~= before@.insert(key@, now)) by {
                assert forall|k: Seq<char>| #[trigger] self.holds(k) == before.holds(k) by {
                    if before.holds(k) {
                        assert(self.at(before.place(k), k));
                    }
                    if self.holds(k) {
                        assert(before.at(self.place(k), k));
                    }
                }
                assert forall|k: Seq<char>| #[trigger]
                    self@.contains_key(k) implies self@[k] == before@.insert(key@, now)[k] by {
                    assert(self.at(self.place(k), k));
                    assert(before.at(before.place(k), k));
                    assert(self.at(before.place(k), k));
                    assert(self.place(k) == before.place(k));
                    if k == key@ {
                        assert(self.at(i as int, k));
                    } else if self.place(k) == i {
                        assert(self.at(i as int, key@));
                    }
                }
            }
        } else {
            self.keys.push(key);
            self.times.push(now);
            let ghost n = before.keys@.len() as int;
            assert(self.keys@[n]@ == key@);
            assert forall|j: int, k: Seq<char>| #[trigger]
                self.at(j, k) == (before.at(j, k) || (j == n && k == key@)) by {
            }
            assert(!before.holds(key@));
            assert(forall|j: int| !before.at(j, key@));
            assert(self.wf());
            assert(self@ =~= before@.insert(key@, now)) by {
                assert(self.at(n, key@));
                assert forall|k: Seq<char>| #[trigger]
                    self.holds(k) == (before.holds(k) || k == key@) by {
                    if before.holds(k) {
                        assert(self.at(before.place(k), k));
                    }
                    if self.holds(k) && k != key@ {
                        assert(before.at(self.place(k), k));
                    }
                }
                assert forall|k: Seq<char>| #[trigger]
                    self@.contains_key(k) implies self@[k] == before@.insert(key@, now)[k] by {
                    assert(self.at(self.place(k), k));
                    if k != key@ {
                        assert(before.at(before.place(k), k));
                        assert(self.at(before.place(k), k));
                        assert(self.place(k) == before.place(k));
                    } else {
                        assert(self.place(k) == n);
                    }
                }
            }
        }
        true
    }
}

/// A command that was let through is held back until the pause is over, and is
/// then let through again.
pub proof fn law_repeated_commands_are_held_back(
    last: Map<Seq<char>, u64>,
    event: Event,
    first: u64,
    second: u64,
)
    requires
        command_key(event) is Some,
        let_through(last, event, first),
    ensures
        let_through(noted(last, event, first), event, second) <==> second - first
            >= COMMAND_DEBOUNCE,
{
}

/// A command does not hold back another one, and what is no command is never
/// held back.
pub proof fn law_other_events_are_not_held_back(
    last: Map<Seq<char>, u64>,
    event: Event,
    first: u64,
    other: Event,
    second: u64,
)
    requires
        event != other,
    ensures
        let_through(noted(last, event, first), other, second) == let_through(last, other, second),
        command_key(other) is None ==> let_through(last, other, second),
{
    if command_key(event) is Some && command_key(other) is Some {
        law_keys_tell_commands_apart(event, other);
    }
}

/// Starts, stops and restarts are the commands, whatever the service. One that was
/// never let through is let through, and so is every other event.
pub proof fn law_commands(last: Map<Seq<char>, u64>, event: Event, now: u64)
    ensures
        command_key(event) is Some <==> event is StartService || event is StopService
            || event is RestartService,
        command_key(event) matches Some(key) ==> !last.contains_key(key) ==> let_through(
            last,
            event,
            now,
        ),
        command_key(event) is None ==> let_through(last, event, now) && noted(last, event, now)
            == last,
{
}

/// A command is held back just if it was let through less than half a second
/// before.
pub proof fn law_half_a_second(
    last: Map<Seq<char>, u64>,
    event: Event,
    first: u64,
    second: u64,
)
    requires
        event is StartService || event is StopService || event is RestartService,
        let_through(last, event, first),
    ensures
        let_through(noted(last, event, first), event, second) <==> second - first >= 500_000_000,
{
}

/// A held back command does not prolong the pause.
pub proof fn law_held_back_commands_leave_no_trace(
    last: Map<Seq<char>, u64>,
    event: Event,
    now: u64,
)
    requires
        !let_through(last, event, now),
    ensures
        noted(last, event, now) == last,
{
}

// ---------------------------------------------------------------------------
// The loop
// ---------------------------------------------------------------------------
/// What was kept from the last time. If that is not to be found, or makes no
/// sense, nothing is wanted.
pub fn load_persisted_state(found: Option<PersistedState>) -> (persisted: PersistedState)
    ensures
        match found {
            Some(kept) => persisted == kept,
            None => persisted.apache_desired is Stopped && persisted.mysql_desired is Stopped
                && persisted.php_desired is Stopped && forall|svc: Service| (#[trigger] persisted.desired(svc)) is Stopped,
        },
{
    match found {
        Some(kept) => kept,
        None => PersistedState::default_stopped(),
    }
}

/// The state at the start of the program: nothing runs, and what is wanted is
/// what was kept.
pub fn initial_state(config: RampConfig, persisted: PersistedState) -> (state: AppState)
    ensures
        forall|svc: Service| #[trigger]
            state@.of(svc) == (StatusView {
                desired: persisted.desired(svc),
                ..StatusView::fresh()
            }),
        state.apache.desired == persisted.apache_desired,
        state.mysql.desired == persisted.mysql_desired,
        state.php.desired == persisted.php_desired,
        state.apache.state is Stopped && state.mysql.state is Stopped && state.php.state is Stopped,
        state.config == config,
        !state.ports.apache_bound && !state.ports.mysql_bound && !state.ports.php_bound,
        initial(state@),
        state@.wf(),
{
    let mut state = AppState::new(config);
    state.apache.desired = persisted.apache_desired;
    state.mysql.desired = persisted.mysql_desired;
    state.php.desired = persisted.php_desired;
    state
}

/// The command to start a service if it is wanted.
pub open spec fn wanted(state: AppView, svc: Service) -> Seq<Event> {
    if state.of(svc).desired is Running {
        seq![Event::StartService(svc)]
    } else {
        seq![]
    }
}

/// What was written down is what is wanted after the next start.
pub proof fn law_wishes_survive_a_restart(before: AppView, after: AppView, svc: Service)
    requires
        forall|s: Service|
            (#[trigger] after.of(s)).desired == PersistedState::kept(before).desired(s),
    ensures
        after.of(svc).desired == before.of(svc).desired,
        wanted(after, svc) == wanted(before, svc),
{
    assert(after.of(svc).desired == PersistedState::kept(before).desired(svc));
}

/// At the beginning exactly the wanted services are started.
pub proof fn law_wanted_services_are_started(state: AppView, svc: Service)
    ensures
        (wanted(state, Service::Apache) + wanted(state, Service::Mysql) + wanted(
            state,
            Service::Php,
        )).contains(Event::StartService(svc)) <==> state.of(svc).desired is Running,
{
    let a = wanted(state, Service::Apache);
    let m = wanted(state, Service::Mysql);
    let p = wanted(state, Service::Php);
    let list = a + m + p;
    if svc is Apache && a.len() > 0 {
        assert(list[0] == Event::StartService(svc));
    }
    if svc is Mysql && m.len() > 0 {
        assert(list[a.len() as int] == Event::StartService(svc));
    }
    if svc is Php && p.len() > 0 {
        assert(list[(a + m).len() as int] == Event::StartService(svc));
    }
}

/// The first events of all: what is wanted is started.
pub fn boot_events(state: &AppState) -> (events: Vec<Event>)
    ensures
        events@ == wanted(state@, Service::Apache) + wanted(state@, Service::Mysql) + wanted(
            state@,
            Service::Php,
        ),
        forall|svc: Service| #[trigger]
            events@.contains(Event::StartService(svc)) <==> state@.of(svc).desired is Running,
        forall|i: int| 0 <= i < events@.len() ==> (#[trigger] events@[i]) is StartService,
{
    let mut events: Vec<Event> = Vec::new();
    if state.apache.desired == DesiredServiceState::Running {
        events.push(Event::StartService(Service::Apache));
    }
    assert(events@ =~= wanted(state@, Service::Apache));
    if state.mysql.desired == DesiredServiceState::Running {
        events.push(Event::StartService(Service::Mysql));
    }
    assert(events@ =~= wanted(state@, Service::Apache) + wanted(state@, Service::Mysql));
    if state.php.desired == DesiredServiceState::Running {
        events.push(Event::StartService(Service::Php));
    }
    assert(events@ =~= wanted(state@, Service::Apache) + wanted(state@, Service::Mysql) + wanted(
        state@,
        Service::Php,
    ));
    proof {
        assert forall|svc: Service| #[trigger]
            events@.contains(Event::StartService(svc)) <==> state@.of(svc).desired is Running by {
            law_wanted_services_are_started(state@, svc);
        }
    }
    events
}

/// A service is down: it has no process, and none is on its way.
pub open spec fn is_down(state: AppView, svc: Service) -> bool {
    match state.of(svc).state {
        ServiceState::Stopped | ServiceState::Crashed | ServiceState::Error => true,
        _ => false,
    }
}

fn down(state: ServiceState) -> (b: bool)
    ensures
        b == (state is Stopped || state is Crashed || state is Error),
{
    match state {
        ServiceState::Stopped | ServiceState::Crashed | ServiceState::Error => true,
        _ => false,
    }
}

/// How long the program waits at its end for the services to go down, in
/// milliseconds: long enough for every process to be asked, and then killed.
pub const EXIT_PATIENCE: u64 = 10_000;

/// Whether the program may end, after it has waited for so many milliseconds: all
/// services are down, or it has waited long enough.
pub fn may_exit(state: &AppState, waited: u64) -> (b: bool)
    ensures
        b == (waited >= 2 * SHUTDOWN_GRACE_PERIOD || forall|svc: Service| is_down(state@, svc)),
{
    assert(is_down(state@, Service::Apache) == (state.apache.state is Stopped
        || state.apache.state is Crashed || state.apache.state is Error));
    assert(is_down(state@, Service::Mysql) == (state.mysql.state is Stopped
        || state.mysql.state is Crashed || state.mysql.state is Error));
    assert(is_down(state@, Service::Php) == (state.php.state is Stopped
        || state.php.state is Crashed || state.php.state is Error));
    waited >= EXIT_PATIENCE || (down(state.apache.state) && down(state.mysql.state) && down(
        state.php.state,
    ))
}

/// A service is down exactly if it is neither up nor on its way up or down.
pub proof fn law_is_down(state: AppView, svc: Service)
    ensures
        is_down(state, svc) <==> !(state.of(svc).state is Starting) && !(state.of(
            svc,
        ).state is Running) && !(state.of(svc).state is Stopping),
{
}

/// The service, if it has just become ready.
pub open spec fn entered(before: AppView, after: AppView, svc: Service) -> Seq<Service> {
    if !(before.of(svc).state is Running) && after.of(svc).state is Running {
        seq![svc]
    } else {
        seq![]
    }
}

/// The services that have just become ready.
pub open spec fn newly_running(before: AppView, after: AppView) -> Seq<Service> {
    entered(before, after, Service::Apache) + entered(before, after, Service::Mysql) + entered(
        before,
        after,
        Service::Php,
    )
}

/// The health of a service is checked from the moment at which it becomes ready:
/// it is among the services that have just become ready exactly if it did not run
/// before and runs now, and it is named once.
pub proof fn law_health_checks_begin(before: AppView, after: AppView, svc: Service)
    ensures
        newly_running(before, after).contains(svc) <==> !(before.of(svc).state is Running)
            && after.of(svc).state is Running,
        newly_running(before, after).no_duplicates(),
{
    let list = newly_running(before, after);
    let a = entered(before, after, Service::Apache);
    let m = entered(before, after, Service::Mysql);
    let p = entered(before, after, Service::Php);
    if svc is Apache && a.len() > 0 {
        assert(list[0] == svc);
    }
    if svc is Mysql && m.len() > 0 {
        assert(list[a.len() as int] == svc);
    }
    if svc is Php && p.len() > 0 {
        assert(list[(a + m).len() as int] == svc);
    }
}

/// What an event leads to.
#[derive(Debug)]
pub enum Turn {
    /// Nothing: the event was held back.
    Debounced,
    /// First the health of these services is checked from now on, then these
    /// effects are executed.
    Applied { health: Vec<Service>, effects: Vec<SideEffect> },
}

/// The state of the event loop.
#[derive(Debug)]
pub struct Session {
    pub state: AppState,
    pub debouncer: Debouncer,
}

impl Session {
    pub open spec fn wf(self) -> bool {
        self.state@.wf() && self.debouncer.wf()
    }

    pub fn new(state: AppState) -> (session: Self)
        requires
            state@.wf(),
        ensures
            session.wf(),
            session.state == state,
            session.debouncer@ == Map::<Seq<char>, u64>::empty(),
    {
        Session { state, debouncer: Debouncer::new() }
    }

    /// Takes one event.
    pub fn handle(self, event: Event, now: u64) -> (result: (Session, Turn))
        requires
            self.wf(),
        ensures
            result.0.wf(),
            result.0.debouncer@ == noted(self.debouncer@, event, now),
            match result.1 {
                Turn::Debounced => {
                    &&& !let_through(self.debouncer@, event, now)
                    &&& result.0.state == self.state
                },
                Turn::Applied { health, effects } => {
                    &&& let_through(self.debouncer@, event, now)
                    &&& (result.0.state@, effects_view(effects@)) == reduce(self.state@, event)
                    &&& health@ == newly_running(self.state@, result.0.state@)
                    &&& forall|svc: Service| #[trigger]
                        health@.contains(svc) <==> !(self.state@.of(svc).state is Running)
                            && result.0.state@.of(svc).state is Running
                    &&& health@.no_duplicates()
                },
            },
    {
        let Session { state, mut debouncer } = self;
        if !debouncer.accept(&event, now) {
            return (Session { state, debouncer }, Turn::Debounced);
        }
        proof {
            law_well_formedness_is_kept(state@, event);
        }
        let ghost before = state@;
        let apache_was = state.apache.state;
        let mysql_was = state.mysql.state;
        let php_was = state.php.state;
        let (state, effects) = reducer(state, event);
        let mut health: Vec<Service> = Vec::new();
        if apache_was != ServiceState::Running && state.apache.state == ServiceState::Running {
            health.push(Service::Apache);
        }
        assert(health@ =~= entered(before, state@, Service::Apache));
        if mysql_was != ServiceState::Running && state.mysql.state == ServiceState::Running {
            health.push(Service::Mysql);
        }
        assert(health@ =~= entered(before, state@, Service::Apache) + entered(
            before,
            state@,
            Service::Mysql,
        ));
        if php_was != ServiceState::Running && state.php.state == ServiceState::Running {
            health.push(Service::Php);
        }
        assert(health@ =~= newly_running(before, state@));
        proof {
            assert forall|svc: Service| #[trigger] health@.contains(svc) <==> !(before.of(
                svc,
            ).state is Running) && state@.of(svc).state is Running by {
                law_health_checks_begin(before, state@, svc);
            }
            law_health_checks_begin(before, state@, Service::Apache);
        }
        (Session { state, debouncer }, Turn::Applied { health, effects })
    }
}

} // verus!
