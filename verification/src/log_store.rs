//! The log: one growing text that the poller appends to and the
//! presentation reads, clears and exports.
//!
//! A store is a plain value. Whoever shares it between threads puts it
//! behind a lock and holds the lock for one call at a time; every call
//! here leaves the text whole, so a reader never sees part of an append.

use vstd::prelude::*;
use vstd::string::*;

verus! {

/// The text after `added` has been appended to `log`.
pub open spec fn appended(log: Seq<char>, added: Seq<char>) -> Seq<char> {
    log + added
}

/// The text after `log` has been cleared.
pub open spec fn cleared(log: Seq<char>) -> Seq<char> {
    Seq::empty()
}

/// The copy that a reader gets of `log`.
pub open spec fn snapshot(log: Seq<char>) -> Seq<char> {
    log
}

pub struct LogStore {
    text: String,
}

impl View for LogStore {
    type V = Seq<char>;

    closed spec fn view(&self) -> Seq<char> {
        self.text@
    }
}

impl LogStore {
    /// An empty log.
    pub fn new() -> (store: LogStore)
        ensures
            store@ == Seq::<char>::empty(),
    {
        LogStore { text: String::new() }
    }

    /// Adds `added` at the end.
    pub fn append(&mut self, added: &str)
        ensures
            final(self)@ == appended(old(self)@, added@),
    {
        self.text.append(added);
    }

    /// A copy of the whole log as it stands.
    pub fn read_snapshot(&self) -> (copy: String)
        ensures
            copy@ == snapshot(self@),
    {
        self.text.clone()
    }

    /// Empties the log.
    pub fn clear(&mut self)
        ensures
            final(self)@ == cleared(old(self)@),
    {
        self.text = String::new();
    }
}

/// Right after a clear, a reader gets the empty text.
pub proof fn lemma_snapshot_after_clear(log: Seq<char>)
    ensures
        snapshot(cleared(log)) == Seq::<char>::empty(),
        snapshot(cleared(log)).len() == 0,
{
}

/// A reader gets all that was there before an append, followed by all of
/// what was appended: never a part of it.
pub proof fn lemma_snapshot_after_append(log: Seq<char>, added: Seq<char>)
    ensures
        snapshot(appended(log, added)).len() == log.len() + added.len(),
        snapshot(appended(log, added)).take(log.len() as int) == log,
        snapshot(appended(log, added)).skip(log.len() as int) == added,
{
    assert(appended(log, added).take(log.len() as int) =~= log);
    assert(appended(log, added).skip(log.len() as int) =~= added);
}

/// A clear wins over what was appended before it, and what is appended
/// after it stands alone.
pub proof fn lemma_clear_and_append(log: Seq<char>, added: Seq<char>)
    ensures
        cleared(appended(log, added)) == Seq::<char>::empty(),
        appended(cleared(log), added) == added,
{
    assert(appended(cleared(log), added) =~= added);
}

} // verus!
