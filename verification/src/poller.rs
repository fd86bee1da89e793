//! The poll cycle as a state machine.
//!
//! The poller decides; whoever drives it does the outside work. Each call
//! takes what has just happened and says what to do next: wait for the
//! next cycle, fetch the public address, or list the connections. When a
//! cycle ends, the call also hands out the text to append to the log, in
//! one piece.

use crate::census::census_report;
use crate::census::connection_report;
use crate::census::Platform;
use crate::clock::get_timestamp;
use crate::clock::is_timestamp;
use crate::entry::error_entry;
use crate::entry::format_base_entry;
use crate::entry::format_change_block;
use crate::entry::format_error_entry;
use crate::entry::success_text;
use crate::resolver::outcome_view;
use crate::resolver::resolve_address;
use crate::resolver::resolved_address;
use crate::resolver::NetworkError;
use vstd::prelude::*;
use vstd::string::*;

verus! {

/// Seconds between two cycles, unless told otherwise.
pub const DEFAULT_POLL_INTERVAL_SECS: u64 = 30;

/// The address-echo service that is asked, unless told otherwise.
pub const DEFAULT_IP_SERVICE_URL: &'static str = "https://api64.ipify.org?format=json";

/// What can be set of a poller.
#[derive(Debug)]
pub struct PollerConfig {
    /// Seconds between two cycles.
    pub poll_interval_secs: u64,
    /// The address-echo service to ask.
    pub ip_service_url: String,
}

impl Default for PollerConfig {
    fn default() -> (config: PollerConfig)
        ensures
            config.poll_interval_secs == DEFAULT_POLL_INTERVAL_SECS,
            config.ip_service_url@ == DEFAULT_IP_SERVICE_URL@,
    {
        PollerConfig {
            poll_interval_secs: DEFAULT_POLL_INTERVAL_SECS,
            ip_service_url: String::from_str(DEFAULT_IP_SERVICE_URL),
        }
    }
}

/// Where the poller stands.
#[derive(Debug)]
pub enum Phase {
    /// Between two cycles.
    Idle,
    /// In a cycle, waiting for the address service's answer.
    AwaitingIp,
    /// In a cycle, with the address known since `time`, waiting for the
    /// list of connections.
    AwaitingCensus { ip: String, time: String },
}

pub enum PhaseView {
    Idle,
    AwaitingIp,
    AwaitingCensus { ip: Seq<char>, time: Seq<char> },
}

impl View for Phase {
    type V = PhaseView;

    open spec fn view(&self) -> PhaseView {
        match self {
            Phase::Idle => PhaseView::Idle,
            Phase::AwaitingIp => PhaseView::AwaitingIp,
            Phase::AwaitingCensus { ip, time } => PhaseView::AwaitingCensus {
                ip: ip@,
                time: time@,
            },
        }
    }
}

/// What has just happened.
#[derive(Debug)]
pub enum PollEvent {
    /// The interval since the last cycle is over.
    Tick,
    /// The address service could not be reached, or its answer could not
    /// be read as text.
    IpUnreachable,
    /// The address service answered with this text.
    IpResponse(String),
    /// The network-status command could not be run.
    CensusUnavailable,
    /// The network-status command printed this text.
    CensusOutput(String),
}

pub enum PollEventView {
    Tick,
    IpUnreachable,
    IpResponse(Seq<char>),
    CensusUnavailable,
    CensusOutput(Seq<char>),
}

impl View for PollEvent {
    type V = PollEventView;

    open spec fn view(&self) -> PollEventView {
        match self {
            PollEvent::Tick => PollEventView::Tick,
            PollEvent::IpUnreachable => PollEventView::IpUnreachable,
            PollEvent::IpResponse(body) => PollEventView::IpResponse(body@),
            PollEvent::CensusUnavailable => PollEventView::CensusUnavailable,
            PollEvent::CensusOutput(output) => PollEventView::CensusOutput(output@),
        }
    }
}

/// What to do next.
#[derive(Clone, Copy, Debug, PartialEq, Eq, Structural)]
pub enum PollAction {
    /// Wait this many seconds, then report a tick.
    Sleep(u64),
    /// Ask the address service, then report its answer.
    FetchIp,
    /// Run the network-status command, then report its output.
    RunCensus,
}

/// The outcome of one call: the text to append to the log, if a cycle has
/// just ended, and what to do next.
#[derive(Debug)]
pub struct PollStep {
    pub entry: Option<String>,
    pub next: PollAction,
}

pub struct PollStepView {
    pub entry: Option<Seq<char>>,
    pub next: PollAction,
}

impl View for PollStep {
    type V = PollStepView;

    open spec fn view(&self) -> PollStepView {
        PollStepView {
            entry: match self.entry {
                Some(text) => Some(text@),
                None => None,
            },
            next: self.next,
        }
    }
}

/// The poller: where it stands in the cycle, and the last public address
/// that it saw.
#[derive(Debug)]
pub struct Poller {
    platform: Platform,
    interval_secs: u64,
    service_url: String,
    phase: Phase,
    last_ip: Option<String>,
}

pub struct PollerView {
    pub platform: Platform,
    pub interval_secs: u64,
    pub service_url: Seq<char>,
    pub phase: PhaseView,
    pub last_ip: Option<Seq<char>>,
}

impl View for Poller {
    type V = PollerView;

    closed spec fn view(&self) -> PollerView {
        PollerView {
            platform: self.platform,
            interval_secs: self.interval_secs,
            service_url: self.service_url@,
            phase: self.phase@,
            last_ip: match self.last_ip {
                Some(ip) => Some(ip@),
                None => None,
            },
        }
    }
}

impl PollerView {
    /// The poller as it starts: idle, with no address seen.
    pub open spec fn initial(
        platform: Platform,
        interval_secs: u64,
        service_url: Seq<char>,
    ) -> PollerView {
        PollerView { platform, interval_secs, service_url, phase: PhaseView::Idle, last_ip: None }
    }

    /// What the poller is waiting for: the action whose report it expects.
    pub open spec fn pending(self) -> PollAction {
        match self.phase {
            PhaseView::Idle => PollAction::Sleep(self.interval_secs),
            PhaseView::AwaitingIp => PollAction::FetchIp,
            PhaseView::AwaitingCensus { .. } => PollAction::RunCensus,
        }
    }

    /// The end of a cycle in which no address could be had: an error entry
    /// for the log, and the last address as it was.
    pub open spec fn fail(self, now: Seq<char>) -> (PollerView, PollStepView) {
        (
            PollerView { phase: PhaseView::Idle, ..self },
            PollStepView {
                entry: Some(error_entry(now)),
                next: PollAction::Sleep(self.interval_secs),
            },
        )
    }

    /// The end of a cycle that found the address `ip` at `time`: the text
    /// for the log, and `ip` as the last address.
    pub open spec fn finish(self, ip: Seq<char>, time: Seq<char>, connections: Seq<char>) -> (
        PollerView,
        PollStepView,
    ) {
        (
            PollerView { phase: PhaseView::Idle, last_ip: Some(ip), ..self },
            PollStepView {
                entry: Some(success_text(self.last_ip, time, ip, connections)),
                next: PollAction::Sleep(self.interval_secs),
            },
        )
    }

    /// The poller and the outcome after the attempt to resolve the
    /// address has ended in `outcome` at `now`: with an address the cycle
    /// goes on to the connections, without one it ends.
    pub open spec fn answered(self, outcome: Result<Seq<char>, NetworkError>, now: Seq<char>) -> (
        PollerView,
        PollStepView,
    ) {
        match (self.phase, outcome) {
            (PhaseView::AwaitingIp, Ok(ip)) => (
                PollerView { phase: PhaseView::AwaitingCensus { ip, time: now }, ..self },
                PollStepView { entry: None, next: PollAction::RunCensus },
            ),
            (PhaseView::AwaitingIp, Err(_)) => self.fail(now),
            _ => (self, PollStepView { entry: None, next: self.pending() }),
        }
    }

    /// The poller and the outcome after `event`, reported at `now`.
    ///
    /// An event that is not the report that the poller is waiting for
    /// changes nothing, and the pending action is named again.
    pub open spec fn advance(self, event: PollEventView, now: Seq<char>) -> (
        PollerView,
        PollStepView,
    ) {
        match (self.phase, event) {
            (PhaseView::Idle, PollEventView::Tick) => (
                PollerView { phase: PhaseView::AwaitingIp, ..self },
                PollStepView { entry: None, next: PollAction::FetchIp },
            ),
            (PhaseView::AwaitingIp, PollEventView::IpUnreachable) => self.fail(now),
            (PhaseView::AwaitingIp, PollEventView::IpResponse(body)) => self.answered(
                resolved_address(body),
                now,
            ),
            (PhaseView::AwaitingCensus { ip, time }, PollEventView::CensusUnavailable) => self.finish(
                ip,
                time,
                census_report(None, self.platform),
            ),
            (PhaseView::AwaitingCensus { ip, time }, PollEventView::CensusOutput(output)) => self.finish(
                ip,
                time,
                census_report(Some(output), self.platform),
            ),
            _ => (self, PollStepView { entry: None, next: self.pending() }),
        }
    }
}

impl Poller {
    /// A poller that has seen no address yet and waits for its first tick.
    pub fn new(platform: Platform, config: PollerConfig) -> (poller: Poller)
        ensures
            poller@ == PollerView::initial(
                platform,
                config.poll_interval_secs,
                config.ip_service_url@,
            ),
    {
        Poller {
            platform,
            interval_secs: config.poll_interval_secs,
            service_url: config.ip_service_url,
            phase: Phase::Idle,
            last_ip: None,
        }
    }

    /// The table layout that the poller reads the connections by.
    pub fn platform(&self) -> (platform: Platform)
        ensures
            platform == self@.platform,
    {
        self.platform
    }

    /// The address-echo service to ask.
    pub fn service_url(&self) -> (url: &str)
        ensures
            url@ == self@.service_url,
    {
        self.service_url.as_str()
    }

    /// The last public address seen, if any.
    pub fn last_ip(&self) -> (ip: Option<&String>)
        ensures
            match ip {
                Some(text) => self@.last_ip == Some(text@),
                None => self@.last_ip is None,
            },
    {
        self.last_ip.as_ref()
    }

    /// Whether the poller is between two cycles.
    pub fn is_idle(&self) -> (idle: bool)
        ensures
            idle == (self@.phase is Idle),
    {
        match self.phase {
            Phase::Idle => true,
            _ => false,
        }
    }

    /// What the poller is waiting for.
    pub fn pending(&self) -> (action: PollAction)
        ensures
            action == self@.pending(),
    {
        match self.phase {
            Phase::Idle => PollAction::Sleep(self.interval_secs),
            Phase::AwaitingIp => PollAction::FetchIp,
            Phase::AwaitingCensus { .. } => PollAction::RunCensus,
        }
    }

    fn fail(&mut self, now: &str) -> (step: PollStep)
        ensures
            (final(self)@, step@) == old(self)@.fail(now@),
    {
        self.phase = Phase::Idle;
        PollStep {
            entry: Some(format_error_entry(now)),
            next: PollAction::Sleep(self.interval_secs),
        }
    }

    fn finish(&mut self, ip: String, time: String, connections: String) -> (step: PollStep)
        ensures
            (final(self)@, step@) == old(self)@.finish(ip@, time@, connections@),
    {
        let mut text = format_base_entry(time.as_str(), ip.as_str(), connections.as_str());
        match &self.last_ip {
            Some(old_ip) => {
                if *old_ip != ip {
                    let block = format_change_block(time.as_str(), old_ip.as_str(), ip.as_str());
                    text = block.concat(text.as_str());
                }
            },
            None => {},
        }
        self.last_ip = Some(ip);
        self.phase = Phase::Idle;
        PollStep { entry: Some(text), next: PollAction::Sleep(self.interval_secs) }
    }

    /// Takes in how the attempt to resolve the address has ended at the
    /// time `now`, and says what to do next.
    pub fn answer(&mut self, outcome: Result<String, NetworkError>, now: &str) -> (step: PollStep)
        ensures
            (final(self)@, step@) == old(self)@.answered(outcome_view(outcome), now@),
    {
        match self.phase {
            Phase::AwaitingIp => match outcome {
                Ok(ip) => {
                    self.phase = Phase::AwaitingCensus { ip, time: String::from_str(now) };
                    PollStep { entry: None, next: PollAction::RunCensus }
                },
                Err(_) => self.fail(now),
            },
            _ => PollStep { entry: None, next: self.pending() },
        }
    }

    /// Takes in `event`, reported at the time `now`, and says what to do
    /// next.
    pub fn advance(&mut self, event: PollEvent, now: &str) -> (step: PollStep)
        ensures
            (final(self)@, step@) == old(self)@.advance(event@, now@),
    {
        let mut phase = Phase::Idle;
        std::mem::swap(&mut self.phase, &mut phase);
        match (phase, event) {
            (Phase::Idle, PollEvent::Tick) => {
                self.phase = Phase::AwaitingIp;
                PollStep { entry: None, next: PollAction::FetchIp }
            },
            (Phase::AwaitingIp, PollEvent::IpUnreachable) => self.fail(now),
            (Phase::AwaitingIp, PollEvent::IpResponse(body)) => {
                self.phase = Phase::AwaitingIp;
                self.answer(resolve_address(body.as_str()), now)
            },
            (Phase::AwaitingCensus { ip, time }, PollEvent::CensusUnavailable) => {
                let connections = connection_report(None, self.platform);
                self.finish(ip, time, connections)
            },
            (Phase::AwaitingCensus { ip, time }, PollEvent::CensusOutput(output)) => {
                let connections = connection_report(Some(output.as_str()), self.platform);
                self.finish(ip, time, connections)
            },
            (phase, _) => {
                self.phase = phase;
                PollStep { entry: None, next: self.pending() }
            },
        }
    }

    /// Takes in `event`, reads the clock, and says what to do next. The
    /// outcome is that of `advance` at the timestamp that the clock gave.
    pub fn step(&mut self, event: PollEvent) -> (step: PollStep)
        ensures
            exists|now: Seq<char>|
                is_timestamp(now) && (final(self)@, step@) == #[trigger] old(self)@.advance(
                    event@,
                    now,
                ),
    {
        let now = get_timestamp();
        self.advance(event, now.as_str())
    }
}

} // verus!
