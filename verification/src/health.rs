//! When a service counts as ready, and how long it is waited for.

use crate::events::Event;
use crate::state::{
    Service, APACHE_READY_TIMEOUT, HEALTH_CHECK_INTERVAL, MYSQL_READY_TIMEOUT, PHP_READY_TIMEOUT,
};
use crate::text::{chars_of, decimal, push_decimal};
use vstd::prelude::*;
use vstd::string::StringExecFns;

verus! {

// ---------------------------------------------------------------------------
// Where services are looked for
// ---------------------------------------------------------------------------
/// A port of this machine, and of no other.
pub open spec fn local_address_text(port: u16) -> Seq<char> {
    "127.0.0.1:"@ + decimal(port as nat)
}

pub fn local_address(port: u16) -> (address: String)
    ensures
        address@ == local_address_text(port),
        address@ == "127.0.0.1:"@ + decimal(port as nat),
{
    let mut address = "127.0.0.1:".to_string();
    push_decimal(&mut address, port as u64);
    address
}

/// The page that Apache is asked for.
pub fn apache_url(port: u16) -> (url: String)
    ensures
        url@ == "http://"@ + local_address_text(port) + "/"@,
{
    let address = local_address(port);
    "http://".to_string().concat(address.as_str()).concat("/")
}

// ---------------------------------------------------------------------------
// Apache's answer
// ---------------------------------------------------------------------------
/// A text in lower case, as `str::to_lowercase` gives it.
pub uninterp spec fn lowercase(text: Seq<char>) -> Seq<char>;

/// The lower case of a character, if it is one of the letters `A` to `Z`.
pub open spec fn lower(c: char) -> char {
    if 'A' <= c <= 'Z' {
        (c as u8 + 32) as u8 as char
    } else {
        c
    }
}

/// The text has ASCII characters only.
pub open spec fn all_ascii(text: Seq<char>) -> bool {
    forall|i: int| 0 <= i < text.len() ==> (#[trigger] text[i]) as u32 <= 127
}

/// Calls `str::to_lowercase`. The contract gives its result a name, and says
/// what the result is for a text of ASCII characters: the letters `A` to `Z`
/// become the letters `a` to `z`, and everything else stays as it is.
#[verifier::external_body]
fn to_lowercase(text: &str) -> (lowered: String)
    ensures
        lowered@ == lowercase(text@),
        all_ascii(text@) ==> lowered@ == text@.map_values(|c: char| lower(c)),
{
    text.to_lowercase()
}

/// `word` occurs somewhere in the text.
pub open spec fn mentions(text: Seq<char>, word: Seq<char>) -> bool {
    exists|i: int|
        0 <= i <= text.len() - word.len() && #[trigger] text.subrange(i, i + word.len()) == word
}

fn find_word(text: &str, word: &str) -> (found: bool)
    ensures
        found == mentions(text@, word@),
{
    let t = chars_of(text);
    let w = chars_of(word);
    let mut i: usize = 0;
    while w.len() <= t.len() - i
        invariant
            t@ == text@,
            w@ == word@,
            i <= t@.len(),
            forall|k: int|
                0 <= k < i ==> #[trigger] text@.subrange(k, k + word@.len()) != word@,
        decreases t@.len() - i,
    {
        let mut j: usize = 0;
        while j < w.len() && t[i + j] == w[j]
            invariant
                t@ == text@,
                w@ == word@,
                i <= t@.len() <= usize::MAX,
                w@.len() <= t@.len() - i,
                j <= w@.len(),
                forall|k: int| 0 <= k < j ==> t@[i + k] == w@[k],
            decreases w@.len() - j,
        {
            j = j + 1;
        }
        if j == w.len() {
            assert(text@.subrange(i as int, i + word@.len()) =~= word@);
            return true;
        }
        assert(text@.subrange(i as int, i + word@.len())[j as int] != word@[j as int]);
        i = i + 1;
    }
    false
}

/// An answer with this status, and with this text in lower case for its server,
/// is one of a working Apache: it is a success or a redirection, and the server
/// says that it is Apache.
pub open spec fn is_apache_answer(status: u16, lowered_server: Seq<char>) -> bool {
    200 <= status < 400 && mentions(lowered_server, "apache"@)
}

pub fn apache_answers(status: u16, lowered_server: &str) -> (b: bool)
    ensures
        b == is_apache_answer(status, lowered_server@),
{
    200 <= status && status < 400 && find_word(lowered_server, "apache")
}

/// Whether an answer is one of a working Apache. `server` is what the answer
/// says of its server, and is empty if it says nothing.
pub fn apache_is_ready(status: u16, server: &str) -> (ready: bool)
    ensures
        ready == is_apache_answer(status, lowercase(server@)),
        all_ascii(server@) ==> ready == is_apache_answer(
            status,
            server@.map_values(|c: char| lower(c)),
        ),
{
    let lowered = to_lowercase(server);
    apache_answers(status, lowered.as_str())
}

// ---------------------------------------------------------------------------
// Waiting for a service to become ready
// ---------------------------------------------------------------------------
/// How long a service may take to become ready, in milliseconds.
pub open spec fn patience(svc: Service) -> u64 {
    match svc {
        Service::Apache => APACHE_READY_TIMEOUT,
        Service::Mysql => MYSQL_READY_TIMEOUT,
        Service::Php => PHP_READY_TIMEOUT,
    }
}

pub fn ready_timeout(svc: Service) -> (timeout: u64)
    ensures
        timeout == patience(svc),
        svc is Apache ==> timeout == 3_000,
        !(svc is Apache) ==> timeout == 5_000,
{
    match svc {
        Service::Apache => APACHE_READY_TIMEOUT,
        Service::Mysql => MYSQL_READY_TIMEOUT,
        Service::Php => PHP_READY_TIMEOUT,
    }
}

/// What whoever waits for a service does next.
#[derive(Debug)]
pub enum PollStep {
    /// See whether the service is ready.
    Probe,
    /// Pause, given in milliseconds, and look at the clock again.
    Wait(u64),
    /// Report the event, and end.
    Report(Event),
}

/// The pause between two probes, in milliseconds.
pub const POLL_INTERVAL: u64 = 200;

/// The time is not up yet. What has passed is given in nanoseconds, the limit
/// in milliseconds.
pub open spec fn in_time(elapsed: nat, timeout: nat) -> bool {
    elapsed < timeout * 1_000_000
}

/// What to do at the beginning of each round: another probe, or, when the time
/// is up, a report that treats the service as gone.
pub fn poll_round(svc: Service, elapsed: u64, timeout: u64) -> (step: PollStep)
    ensures
        step == (if in_time(elapsed as nat, timeout as nat) {
            PollStep::Probe
        } else {
            PollStep::Report(Event::ProcessExit { service: svc, exit_code: None })
        }),
        step is Probe <==> elapsed < timeout * 1_000_000,
{
    if (elapsed as u128) < (timeout as u128) * 1_000_000 {
        PollStep::Probe
    } else {
        PollStep::Report(Event::ProcessExit { service: svc, exit_code: None })
    }
}

/// What to do after a probe.
pub fn poll_probed(svc: Service, ready: bool) -> (step: PollStep)
    ensures
        step == (if ready {
            PollStep::Report(Event::ProcessReady(svc))
        } else {
            PollStep::Wait(POLL_INTERVAL)
        }),
{
    if ready {
        PollStep::Report(Event::ProcessReady(svc))
    } else {
        PollStep::Wait(POLL_INTERVAL)
    }
}

/// What is reported in the end, for rounds that begin at these times and whose
/// probes have these results; nothing, if the rounds do not go on for long
/// enough.
pub open spec fn poll_report(
    svc: Service,
    timeout: nat,
    rounds: Seq<(nat, bool)>,
) -> Option<Event>
    decreases rounds.len(),
{
    if rounds.len() == 0 {
        None
    } else if !in_time(rounds[0].0, timeout) {
        Some(Event::ProcessExit { service: svc, exit_code: None })
    } else if rounds[0].1 {
        Some(Event::ProcessReady(svc))
    } else {
        poll_report(svc, timeout, rounds.skip(1))
    }
}

/// A service is reported as ready just if a probe finds it ready before the time
/// is up; once the time is up without that, it is reported as gone.
pub proof fn law_poll_reports(svc: Service, timeout: nat, rounds: Seq<(nat, bool)>, n: int)
    requires
        0 <= n < rounds.len(),
        forall|i: int| 0 <= i < n ==> in_time((#[trigger] rounds[i]).0, timeout) && !rounds[i].1,
    ensures
        !in_time(rounds[n].0, timeout) ==> poll_report(svc, timeout, rounds) == Some(
            Event::ProcessExit { service: svc, exit_code: None },
        ),
        in_time(rounds[n].0, timeout) && rounds[n].1 ==> poll_report(svc, timeout, rounds) == Some(
            Event::ProcessReady(svc),
        ),
    decreases rounds.len(),
{
    if n > 0 {
        let rest = rounds.skip(1);
        assert(in_time(rounds[0].0, timeout) && !rounds[0].1);
        assert forall|i: int| 0 <= i < n - 1 implies in_time((#[trigger] rest[i]).0, timeout)
            && !rest[i].1 by {
            assert(rest[i] == rounds[i + 1]);
        }
        assert(rest[n - 1] == rounds[n]);
        law_poll_reports(svc, timeout, rest, n - 1);
    }
}

// ---------------------------------------------------------------------------
// Checking the health of a service
// ---------------------------------------------------------------------------
/// Whether an answer with this status shows that Apache is healthy: it is a
/// success or a redirection.
pub fn apache_is_healthy(status: u16) -> (healthy: bool)
    ensures
        healthy == (200 <= status < 400),
{
    200 <= status && status < 400
}

/// The event that a health check leads to.
pub open spec fn health_verdict(svc: Service, passed: bool) -> Event {
    if passed {
        Event::HealthCheckPass(svc)
    } else {
        Event::HealthCheckFail(svc)
    }
}

pub fn health_event(svc: Service, passed: bool) -> (event: Event)
    ensures
        event == health_verdict(svc, passed),
        passed ==> event == Event::HealthCheckPass(svc),
        !passed ==> event == Event::HealthCheckFail(svc),
{
    if passed {
        Event::HealthCheckPass(svc)
    } else {
        Event::HealthCheckFail(svc)
    }
}

/// What has just happened to a health checker. It begins with a wait.
#[derive(Debug)]
pub enum HealthNews {
    /// It was told to stop while it waited.
    Stopped,
    /// Nobody is left who could tell it to stop.
    Abandoned,
    /// It has waited for a whole interval.
    Waited,
    /// A probe of the service went well, or did not.
    Probed(bool),
    /// An event was sent, or could not be.
    Sent(bool),
}

/// What a health checker does next.
#[derive(Debug)]
pub enum HealthStep {
    /// Wait for so many milliseconds, unless somebody says to stop.
    Wait(u64),
    /// Probe the service.
    Probe,
    /// Send the event.
    Report(Event),
    /// End.
    End,
}

/// What a health checker does after something has happened to it.
pub open spec fn health_reaction(svc: Service, news: HealthNews) -> HealthStep {
    match news {
        HealthNews::Stopped | HealthNews::Abandoned => HealthStep::End,
        HealthNews::Waited => HealthStep::Probe,
        HealthNews::Probed(passed) => HealthStep::Report(health_verdict(svc, passed)),
        HealthNews::Sent(true) => HealthStep::Wait(HEALTH_CHECK_INTERVAL),
        HealthNews::Sent(false) => HealthStep::End,
    }
}

pub fn health_step(svc: Service, news: HealthNews) -> (step: HealthStep)
    ensures
        step == health_reaction(svc, news),
{
    match news {
        HealthNews::Stopped | HealthNews::Abandoned => HealthStep::End,
        HealthNews::Waited => HealthStep::Probe,
        HealthNews::Probed(passed) => HealthStep::Report(health_event(svc, passed)),
        HealthNews::Sent(sent) => if sent {
            HealthStep::Wait(HEALTH_CHECK_INTERVAL)
        } else {
            HealthStep::End
        },
    }
}

/// An interval of a health checker: how the wait ended, and, if it came to that,
/// whether the probe went well and whether the event could be sent.
pub struct HealthRound {
    pub wait: HealthNews,
    pub passed: bool,
    pub sent: bool,
}

/// All events that a health checker reports in these intervals.
pub open spec fn health_reports(svc: Service, rounds: Seq<HealthRound>) -> Seq<Event>
    decreases rounds.len(),
{
    if rounds.len() == 0 {
        seq![]
    } else {
        let round = rounds[0];
        match health_reaction(svc, round.wait) {
            HealthStep::Probe => match health_reaction(svc, HealthNews::Probed(round.passed)) {
                HealthStep::Report(event) => match health_reaction(
                    svc,
                    HealthNews::Sent(round.sent),
                ) {
                    HealthStep::Wait(_) => seq![event] + health_reports(svc, rounds.skip(1)),
                    _ => seq![event],
                },
                _ => seq![],
            },
            _ => seq![],
        }
    }
}

/// A health checker reports one event per interval, which says how the probe
/// went, until it is stopped or abandoned in its wait or cannot send any more.
pub proof fn law_one_report_per_interval(svc: Service, rounds: Seq<HealthRound>, n: int)
    requires
        0 <= n <= rounds.len(),
        forall|i: int| 0 <= i < n ==> (#[trigger] rounds[i]).wait is Waited,
        forall|i: int| 0 <= i < n - 1 ==> (#[trigger] rounds[i]).sent,
        n < rounds.len() ==> rounds[n].wait is Stopped || rounds[n].wait is Abandoned || (n > 0
            && !rounds[n - 1].sent),
    ensures
        health_reports(svc, rounds) == Seq::new(
            n as nat,
            |i: int| health_verdict(svc, rounds[i].passed),
        ),
    decreases rounds.len(),
{
    let expected = Seq::new(n as nat, |i: int| health_verdict(svc, rounds[i].passed));
    if n > 0 {
        let rest = rounds.skip(1);
        let later = Seq::new((n - 1) as nat, |i: int| health_verdict(svc, rest[i].passed));
        assert(rounds[0].wait is Waited);
        if n == 1 && !rounds[0].sent {
            assert(health_reports(svc, rounds) =~= expected);
        } else {
            assert(rounds[0].sent);
            assert forall|i: int| 0 <= i < n - 1 implies (#[trigger] rest[i]).wait is Waited by {
                assert(rest[i] == rounds[i + 1]);
            }
            assert forall|i: int| 0 <= i < n - 2 implies (#[trigger] rest[i]).sent by {
                assert(rest[i] == rounds[i + 1]);
            }
            if n < rounds.len() {
                assert(rest[n - 1] == rounds[n]);
            }
            if n > 1 {
                assert(rest[n - 2] == rounds[n - 1]);
            }
            law_one_report_per_interval(svc, rest, n - 1);
            assert(expected =~= seq![health_verdict(svc, rounds[0].passed)] + later);
        }
    } else {
        assert(health_reports(svc, rounds) =~= expected);
    }
}

/// A service is waited for until its own time is up: what has passed, in
/// nanoseconds, is held against the limit in milliseconds, whatever the limit is.
pub proof fn law_in_time(elapsed: nat, timeout: nat)
    ensures
        in_time(elapsed, timeout) <==> elapsed < timeout * 1_000_000,
{
}

/// Apache may take three seconds to become ready, MySQL and PHP five.
pub proof fn law_patience(svc: Service)
    ensures
        patience(svc) == (if svc is Apache {
            3_000u64
        } else {
            5_000u64
        }),
{
}

/// Services are looked for on this machine only.
pub proof fn law_addresses_are_local(port: u16)
    ensures
        local_address_text(port) == "127.0.0.1:"@ + decimal(port as nat),
{
}

/// A word is mentioned in a text just if the text is something, the word, and
/// something.
pub proof fn law_mentions(text: Seq<char>, word: Seq<char>)
    ensures
        mentions(text, word) <==> exists|a: Seq<char>, b: Seq<char>|
            text == #[trigger] (a + word + b),
{
    if mentions(text, word) {
        let i = choose|i: int|
            0 <= i <= text.len() - word.len() && #[trigger] text.subrange(i, i + word.len())
                == word;
        let a = text.take(i);
        let b = text.skip(i + word.len());
        assert(text =~= a + word + b);
    }
    if exists|a: Seq<char>, b: Seq<char>| text == #[trigger] (a + word + b) {
        let (a, b) = choose|a: Seq<char>, b: Seq<char>| text == #[trigger] (a + word + b);
        let i = a.len() as int;
        assert(text.subrange(i, i + word.len()) =~= word);
    }
}

/// An answer is one of a working Apache just if it is neither an error nor
/// anything preliminary, and its server says that it is Apache.
pub proof fn law_apache_answers(status: u16, lowered_server: Seq<char>)
    ensures
        is_apache_answer(status, lowered_server) <==> 200 <= status <= 399 && mentions(
            lowered_server,
            "apache"@,
        ),
{
}

/// The letters `A` to `Z` have the letters `a` to `z` for their lower case, and
/// nothing else changes.
pub proof fn law_lower(c: char)
    ensures
        'A' <= c <= 'Z' ==> lower(c) as int == c as int + ('a' as int - 'A' as int),
        !('A' <= c <= 'Z') ==> lower(c) == c,
{
}

/// What a health checker does: after a whole interval it probes, after a probe it
/// reports the result, after a report that could be sent it waits for the next
/// interval, and in every other case it ends.
pub proof fn law_health_checker(svc: Service, passed: bool)
    ensures
        health_reaction(svc, HealthNews::Waited) is Probe,
        health_reaction(svc, HealthNews::Probed(true)) == HealthStep::Report(
            Event::HealthCheckPass(svc),
        ),
        health_reaction(svc, HealthNews::Probed(false)) == HealthStep::Report(
            Event::HealthCheckFail(svc),
        ),
        health_reaction(svc, HealthNews::Sent(true)) == HealthStep::Wait(2_000),
        health_reaction(svc, HealthNews::Sent(false)) is End,
        health_reaction(svc, HealthNews::Stopped) is End,
        health_reaction(svc, HealthNews::Abandoned) is End,
        health_verdict(svc, passed) == (if passed {
            Event::HealthCheckPass(svc)
        } else {
            Event::HealthCheckFail(svc)
        }),
{
}

} // verus!
