//! What holds of every poll cycle.
//!
//! A cycle starts with a tick in the idle phase. It ends with the report
//! that no address could be had, or with the report on the connections
//! after an address was found.

use crate::census::census_report;
use crate::census::Platform;
use crate::entry::base_entry;
use crate::entry::change_block;
use crate::entry::error_entry;
use crate::log_store::appended;
use crate::poller::PhaseView;
use crate::poller::PollAction;
use crate::poller::PollEventView;
use crate::poller::PollStepView;
use crate::poller::PollerView;
use crate::resolver::resolved_address;
use vstd::prelude::*;

verus! {

/// Whether `event` reports that no address could be had.
pub open spec fn is_failure(event: PollEventView) -> bool {
    match event {
        PollEventView::IpUnreachable => true,
        PollEventView::IpResponse(body) => resolved_address(body) is Err,
        _ => false,
    }
}

/// What the log shows of the connections after `event`.
pub open spec fn connections_of(event: PollEventView, platform: Platform) -> Seq<char> {
    match event {
        PollEventView::CensusOutput(output) => census_report(Some(output), platform),
        _ => census_report(None, platform),
    }
}

/// Whether `event` reports on the connections.
pub open spec fn is_census(event: PollEventView) -> bool {
    event is CensusOutput || event is CensusUnavailable
}

/// The poller and the outcome at the end of a cycle in which the address
/// service gave `answer` at `now` and, where the cycle went on, the
/// network-status command gave `census`. The tick and the report on the
/// connections are taken at `now` too; `lemma_time_of_answer_counts` shows
/// that their times do not matter.
pub open spec fn cycle(
    start: PollerView,
    answer: PollEventView,
    now: Seq<char>,
    census: PollEventView,
) -> (PollerView, PollStepView) {
    let polling = start.advance(PollEventView::Tick, now).0;
    let (answered, step) = polling.advance(answer, now);
    if answered.phase is Idle {
        (answered, step)
    } else {
        answered.advance(census, now)
    }
}

/// Only the time at which the address service's answer is reported shows
/// in what a cycle logs: the times of the tick and of the report on the
/// connections change nothing.
pub proof fn lemma_time_of_answer_counts(
    start: PollerView,
    event: PollEventView,
    now: Seq<char>,
    other: Seq<char>,
)
    requires
        !(start.phase is AwaitingIp),
    ensures
        start.advance(event, now) == start.advance(event, other),
{
}

/// A tick in the idle phase opens a cycle: nothing is logged, and the
/// address is to be fetched, whatever went before.
pub proof fn lemma_tick_opens_cycle(start: PollerView, now: Seq<char>)
    requires
        start.phase is Idle,
    ensures
        start.advance(PollEventView::Tick, now).0.phase is AwaitingIp,
        start.advance(PollEventView::Tick, now).0.last_ip == start.last_ip,
        start.advance(PollEventView::Tick, now).1 == (PollStepView {
            entry: None,
            next: PollAction::FetchIp,
        }),
{
}

/// A cycle in which no address could be had logs one error entry and
/// leaves the poller as it was before the cycle, so that any number of
/// such cycles in a row leave the last address unchanged.
pub proof fn lemma_failed_cycle(
    start: PollerView,
    failure: PollEventView,
    now: Seq<char>,
    census: PollEventView,
    log: Seq<char>,
)
    requires
        start.phase is Idle,
        is_failure(failure),
    ensures
        cycle(start, failure, now, census).0 == start,
        cycle(start, failure, now, census).1.entry == Some(error_entry(now)),
        cycle(start, failure, now, census).1.next == PollAction::Sleep(start.interval_secs),
        appended(log, cycle(start, failure, now, census).1.entry->0) == log + error_entry(now),
{
}

/// A cycle that finds an address ends idle with that address as the last
/// one, and logs the base entry at the end of what it logs.
pub proof fn lemma_successful_cycle(
    start: PollerView,
    body: Seq<char>,
    now: Seq<char>,
    census: PollEventView,
)
    requires
        start.phase is Idle,
        resolved_address(body) is Ok,
        is_census(census),
    ensures
        ({
            let ip = resolved_address(body)->Ok_0;
            let (end, step) = cycle(start, PollEventView::IpResponse(body), now, census);
            let base = base_entry(now, ip, connections_of(census, start.platform));
            &&& end.phase is Idle
            &&& end.last_ip == Some(ip)
            &&& end.platform == start.platform
            &&& end.interval_secs == start.interval_secs
            &&& step.next == PollAction::Sleep(start.interval_secs)
            &&& step.entry is Some
            &&& step.entry->0.len() >= base.len()
            &&& step.entry->0.skip(step.entry->0.len() - base.len()) == base
        }),
{
    let ip = resolved_address(body)->Ok_0;
    let (end, step) = cycle(start, PollEventView::IpResponse(body), now, census);
    let base = base_entry(now, ip, connections_of(census, start.platform));
    let text = step.entry->0;
    match start.last_ip {
        Some(old_ip) if old_ip != ip => {
            let block = change_block(now, old_ip, ip);
            assert(text == block + base);
            assert(text.skip(text.len() - base.len()) =~= base);
        },
        _ => {
            assert(text == base);
            assert(text.skip(0) =~= base);
        },
    }
}

/// Where the address found is the last one seen, the cycle logs the base
/// entry and nothing before it.
pub proof fn lemma_same_address_cycle(
    start: PollerView,
    body: Seq<char>,
    now: Seq<char>,
    census: PollEventView,
)
    requires
        start.phase is Idle,
        is_census(census),
        resolved_address(body) is Ok,
        start.last_ip == Some(resolved_address(body)->Ok_0),
    ensures
        cycle(start, PollEventView::IpResponse(body), now, census).1.entry == Some(
            base_entry(now, resolved_address(body)->Ok_0, connections_of(census, start.platform)),
        ),
        cycle(start, PollEventView::IpResponse(body), now, census).0 == start,
{
}

/// Where an address was seen before and the one found differs from it,
/// the cycle logs one text: the change block with both addresses,
/// directly followed by the base entry.
pub proof fn lemma_changed_address_cycle(
    start: PollerView,
    body: Seq<char>,
    now: Seq<char>,
    census: PollEventView,
)
    requires
        start.phase is Idle,
        is_census(census),
        resolved_address(body) is Ok,
        start.last_ip is Some,
        start.last_ip->0 != resolved_address(body)->Ok_0,
    ensures
        cycle(start, PollEventView::IpResponse(body), now, census).1.entry == Some(
            change_block(now, start.last_ip->0, resolved_address(body)->Ok_0) + base_entry(
                now,
                resolved_address(body)->Ok_0,
                connections_of(census, start.platform),
            ),
        ),
        cycle(start, PollEventView::IpResponse(body), now, census).0.last_ip == Some(
            resolved_address(body)->Ok_0,
        ),
{
}

/// The first cycle that finds an address logs the base entry and nothing
/// before it, and makes that address the last one seen.
pub proof fn lemma_first_address_cycle(
    start: PollerView,
    body: Seq<char>,
    now: Seq<char>,
    census: PollEventView,
)
    requires
        start.phase is Idle,
        is_census(census),
        resolved_address(body) is Ok,
        start.last_ip is None,
    ensures
        cycle(start, PollEventView::IpResponse(body), now, census).1.entry == Some(
            base_entry(now, resolved_address(body)->Ok_0, connections_of(census, start.platform)),
        ),
        cycle(start, PollEventView::IpResponse(body), now, census).0.last_ip == Some(
            resolved_address(body)->Ok_0,
        ),
{
}

/// A change block is never empty, so a text that is the base entry alone
/// holds none before it.
pub proof fn lemma_change_block_shows(
    now: Seq<char>,
    old_ip: Seq<char>,
    new_ip: Seq<char>,
    connections: Seq<char>,
)
    ensures
        change_block(now, old_ip, new_ip).len() > 0,
        change_block(now, old_ip, new_ip) + base_entry(now, new_ip, connections) != base_entry(
            now,
            new_ip,
            connections,
        ),
{
    let block = change_block(now, old_ip, new_ip);
    let base = base_entry(now, new_ip, connections);
    assert(block.len() >= crate::entry::separator().len());
    assert((block + base).len() == block.len() + base.len());
}

/// An event that is not the report that the poller waits for changes
/// nothing and logs nothing.
pub proof fn lemma_stray_event(start: PollerView, event: PollEventView, now: Seq<char>)
    requires
        match start.phase {
            PhaseView::Idle => !(event is Tick),
            PhaseView::AwaitingIp => !(event is IpUnreachable || event is IpResponse),
            PhaseView::AwaitingCensus { .. } => !is_census(event),
        },
    ensures
        start.advance(event, now).0 == start,
        start.advance(event, now).1 == (PollStepView { entry: None, next: start.pending() }),
{
}

} // verus!
