//! The log is made of whole entries: whatever the poller hands out, and
//! so whatever a log holds that only the poller appends to.

use crate::entry::base_entry;
use crate::entry::change_block;
use crate::entry::error_entry;
use crate::log_store::appended;
use crate::log_store::cleared;
use crate::poller::PhaseView;
use crate::poller::PollEventView;
use crate::poller::PollerView;
use crate::poller_laws::connections_of;
use vstd::prelude::*;

verus! {

/// Whether `text` is one entry: an error entry, a base entry or a change
/// block.
pub open spec fn is_entry(text: Seq<char>) -> bool {
    ||| exists|time: Seq<char>| text == #[trigger] error_entry(time)
    ||| exists|time: Seq<char>, ip: Seq<char>, connections: Seq<char>|
        text == #[trigger] base_entry(time, ip, connections)
    ||| exists|time: Seq<char>, old_ip: Seq<char>, new_ip: Seq<char>|
        text == #[trigger] change_block(time, old_ip, new_ip)
}

/// Whether each of `blocks` is one entry.
pub open spec fn all_entries(blocks: Seq<Seq<char>>) -> bool {
    forall|i: int| 0 <= i < blocks.len() ==> is_entry(#[trigger] blocks[i])
}

/// The blocks one after the other, as one text.
pub open spec fn joined(blocks: Seq<Seq<char>>) -> Seq<char>
    decreases blocks.len(),
{
    if blocks.len() == 0 {
        Seq::empty()
    } else {
        joined(blocks.drop_last()) + blocks.last()
    }
}

/// Whether `log` is a sequence of whole entries.
pub open spec fn whole_entries(log: Seq<char>) -> bool {
    exists|blocks: Seq<Seq<char>>| all_entries(blocks) && #[trigger] joined(blocks) == log
}

/// Joining two runs of blocks gives the two joined texts, one after the
/// other.
pub proof fn lemma_joined_concat(first: Seq<Seq<char>>, second: Seq<Seq<char>>)
    ensures
        joined(first + second) == joined(first) + joined(second),
    decreases second.len(),
{
    if second.len() == 0 {
        assert(first + second =~= first);
        assert(joined(first) + joined(second) =~= joined(first));
    } else {
        lemma_joined_concat(first, second.drop_last());
        assert((first + second).drop_last() =~= first + second.drop_last());
        assert((first + second).last() == second.last());
        assert(joined(first + second) =~= joined(first) + joined(second));
    }
}

/// The empty log and the cleared log are made of whole entries: of none.
pub proof fn lemma_cleared_log_is_whole(log: Seq<char>)
    ensures
        whole_entries(Seq::<char>::empty()),
        whole_entries(cleared(log)),
{
    let none = Seq::<Seq<char>>::empty();
    assert(all_entries(none) && joined(none) == Seq::<char>::empty());
}

/// A log of whole entries stays one when whole entries are appended.
pub proof fn lemma_appended_log_is_whole(log: Seq<char>, added: Seq<char>)
    requires
        whole_entries(log),
        whole_entries(added),
    ensures
        whole_entries(appended(log, added)),
{
    let first = choose|blocks: Seq<Seq<char>>| all_entries(blocks) && #[trigger] joined(blocks) == log;
    let second = choose|blocks: Seq<Seq<char>>|
        all_entries(blocks) && #[trigger] joined(blocks) == added;
    lemma_joined_concat(first, second);
    assert(all_entries(first + second));
    assert(joined(first + second) == appended(log, added));
}

/// One entry alone is a sequence of whole entries.
pub proof fn lemma_entry_is_whole(text: Seq<char>)
    requires
        is_entry(text),
    ensures
        whole_entries(text),
{
    let one = seq![text];
    assert(one.drop_last() =~= Seq::<Seq<char>>::empty());
    assert(joined(one) =~= text) by {
        reveal_with_fuel(joined, 2);
    }
    assert(all_entries(one));
}

/// Whatever the poller hands out for the log, in any phase and after any
/// event, is made of whole entries.
pub proof fn lemma_step_logs_whole_entries(
    poller: PollerView,
    event: PollEventView,
    now: Seq<char>,
)
    ensures
        poller.advance(event, now).1.entry is Some ==> whole_entries(
            poller.advance(event, now).1.entry->0,
        ),
{
    let entry = poller.advance(event, now).1.entry;
    if entry is Some {
        let text = entry->0;
        match poller.phase {
            PhaseView::AwaitingCensus { ip, time } => {
                let connections = connections_of(event, poller.platform);
                let base = base_entry(time, ip, connections);
                assert(is_entry(base));
                lemma_entry_is_whole(base);
                match poller.last_ip {
                    Some(old_ip) if old_ip != ip => {
                        let block = change_block(time, old_ip, ip);
                        assert(is_entry(block));
                        lemma_entry_is_whole(block);
                        lemma_appended_log_is_whole(block, base);
                        assert(text == block + base);
                    },
                    _ => {
                        assert(text == base);
                    },
                }
            },
            _ => {
                assert(text == error_entry(now));
                assert(is_entry(text));
                lemma_entry_is_whole(text);
            },
        }
    }
}

/// A log of whole entries stays one through any call of the poller whose
/// text is appended, and through any clear.
pub proof fn lemma_log_stays_whole(
    log: Seq<char>,
    poller: PollerView,
    event: PollEventView,
    now: Seq<char>,
)
    requires
        whole_entries(log),
    ensures
        whole_entries(cleared(log)),
        poller.advance(event, now).1.entry is Some ==> whole_entries(
            appended(log, poller.advance(event, now).1.entry->0),
        ),
{
    lemma_cleared_log_is_whole(log);
    lemma_step_logs_whole_entries(poller, event, now);
    if poller.advance(event, now).1.entry is Some {
        lemma_appended_log_is_whole(log, poller.advance(event, now).1.entry->0);
    }
}

} // verus!
