//! The connection census: from the output of the platform's network-status
//! command to a summary of remote addresses, most frequent first.

use crate::census_laws::descending;
use crate::census_laws::distinct_addresses;
use crate::census_laws::lemma_ranked_descending;
use crate::census_laws::lemma_ranked_permutes;
use crate::census_laws::lemma_tally_counts;
use crate::census_laws::lemma_tally_distinct;
use crate::scan::contains;
use crate::scan::contains_text;
use crate::scan::host_of;
use crate::scan::host_part;
use crate::scan::lines;
use crate::scan::split_lines;
use crate::scan::split_words;
use crate::scan::texts;
use crate::scan::words;
use crate::text::chars_of;
use crate::text::decimal;
use crate::text::push_chars;
use crate::text::push_decimal;
use crate::text::same_chars;
use crate::text::string_of;
use vstd::prelude::*;
use vstd::string::*;

verus! {

/// The layout of the network-status table.
#[derive(Clone, Copy, Debug, PartialEq, Eq, Structural)]
pub enum Platform {
    /// Rows carry a protocol marker; the remote endpoint is the third column.
    Windows,
    /// The remote endpoint is the fifth column of every row that has one.
    Unix,
}

/// The name of the network-status command.
pub open spec fn status_command_text() -> Seq<char> {
    "netstat"@
}

/// The argument that makes the command list connections with numeric
/// addresses: `-n` on Windows, `-tn`, for TCP alone, elsewhere.
pub open spec fn status_argument_text(platform: Platform) -> Seq<char> {
    match platform {
        Platform::Windows => "-n"@,
        Platform::Unix => "-tn"@,
    }
}

/// The name of the network-status command.
pub fn status_command() -> (name: &'static str)
    ensures
        name@ == status_command_text(),
{
    "netstat"
}

/// The argument to run the network-status command with.
pub fn status_argument(platform: Platform) -> (argument: &'static str)
    ensures
        argument@ == status_argument_text(platform),
{
    match platform {
        Platform::Windows => "-n",
        Platform::Unix => "-tn",
    }
}

/// A remote address with the number of connections to it.
#[derive(Debug)]
pub struct AddressCount {
    pub address: Vec<char>,
    pub count: usize,
}

impl View for AddressCount {
    type V = (Seq<char>, nat);

    open spec fn view(&self) -> (Seq<char>, nat) {
        (self.address@, self.count as nat)
    }
}

/// The address and count pairs that a vector of entries holds.
pub open spec fn counts(v: Seq<AddressCount>) -> Seq<(Seq<char>, nat)> {
    v.map_values(|e: AddressCount| e@)
}

/// The marker of a connection row on Windows.
pub open spec fn tcp_marker() -> Seq<char> {
    seq!['T', 'C', 'P']
}

/// The remote address that a row of the table names, if it names one.
pub open spec fn remote_address(line: Seq<char>, platform: Platform) -> Option<Seq<char>> {
    let columns = words(line);
    match platform {
        Platform::Windows => if contains_text(line, tcp_marker()) && columns.len() >= 3 {
            Some(host_part(columns[2]))
        } else {
            None
        },
        Platform::Unix => if columns.len() >= 5 {
            Some(host_part(columns[4]))
        } else {
            None
        },
    }
}

/// The remote addresses that the rows name, in the order of the rows.
pub open spec fn addresses(rows: Seq<Seq<char>>, platform: Platform) -> Seq<Seq<char>>
    decreases rows.len(),
{
    if rows.len() == 0 {
        Seq::empty()
    } else {
        let before = addresses(rows.drop_last(), platform);
        match remote_address(rows.last(), platform) {
            Some(address) => before.push(address),
            None => before,
        }
    }
}

/// How often `address` occurs in `items`.
pub open spec fn occurrences(items: Seq<Seq<char>>, address: Seq<char>) -> nat
    decreases items.len(),
{
    if items.len() == 0 {
        0
    } else {
        occurrences(items.drop_last(), address) + if items.last() == address {
            1nat
        } else {
            0nat
        }
    }
}

/// The index of the first entry for `address`; the length where there is none.
pub open spec fn entry_index(t: Seq<(Seq<char>, nat)>, address: Seq<char>) -> nat
    decreases t.len(),
{
    if t.len() == 0 || t[0].0 == address {
        0
    } else {
        1 + entry_index(t.drop_first(), address)
    }
}

/// The count that `t` holds for `address`; zero where it has no entry for it.
pub open spec fn count_for(t: Seq<(Seq<char>, nat)>, address: Seq<char>) -> nat {
    let i = entry_index(t, address) as int;
    if i < t.len() {
        t[i].1
    } else {
        0
    }
}

/// `t` after one more occurrence of `address`: its entry counts one more,
/// or a new entry with count one stands at the end.
pub open spec fn bump(t: Seq<(Seq<char>, nat)>, address: Seq<char>) -> Seq<(Seq<char>, nat)> {
    let i = entry_index(t, address) as int;
    if i < t.len() {
        t.update(i, (address, t[i].1 + 1))
    } else {
        t.push((address, 1))
    }
}

/// The tally of `items`: one entry for each distinct address, in the order
/// in which the addresses first occur, each with its number of occurrences.
pub open spec fn tally(items: Seq<Seq<char>>) -> Seq<(Seq<char>, nat)>
    decreases items.len(),
{
    if items.len() == 0 {
        Seq::empty()
    } else {
        bump(tally(items.drop_last()), items.last())
    }
}

/// The index of the first entry that counts less than `count`; the length
/// where there is none.
pub open spec fn rank_index(r: Seq<(Seq<char>, nat)>, count: nat) -> nat
    decreases r.len(),
{
    if r.len() == 0 || r[0].1 < count {
        0
    } else {
        1 + rank_index(r.drop_first(), count)
    }
}

/// The entries of `t` by descending count. Entries with the same count keep
/// the order that they have in `t`.
pub open spec fn ranked(t: Seq<(Seq<char>, nat)>) -> Seq<(Seq<char>, nat)>
    decreases t.len(),
{
    if t.len() == 0 {
        Seq::empty()
    } else {
        let before = ranked(t.drop_last());
        before.insert(rank_index(before, t.last().1) as int, t.last())
    }
}

/// One line of the summary: the count, an arrow, the address.
pub open spec fn summary_line(entry: (Seq<char>, nat)) -> Seq<char> {
    decimal(entry.1) + seq![' ', '-', '>', ' '] + entry.0
}

/// The lines of the summary, one per entry, with a line feed between each
/// two.
pub open spec fn render(entries: Seq<(Seq<char>, nat)>) -> Seq<char>
    decreases entries.len(),
{
    if entries.len() == 0 {
        Seq::empty()
    } else if entries.len() == 1 {
        summary_line(entries[0])
    } else {
        render(entries.drop_last()) + seq!['\n'] + summary_line(entries.last())
    }
}

/// The summary of the connections that the command's output lists.
pub open spec fn census_summary(output: Seq<char>, platform: Platform) -> Seq<char> {
    render(ranked(tally(addresses(lines(output), platform))))
}

/// The remote address that `line` names, if it names one.
pub fn address_of_line(line: &Vec<char>, platform: Platform) -> (out: Option<Vec<char>>)
    ensures
        match out {
            Some(address) => remote_address(line@, platform) == Some(address@),
            None => remote_address(line@, platform) is None,
        },
{
    let column: usize = match platform {
        Platform::Windows => {
            let mut marker: Vec<char> = Vec::new();
            marker.push('T');
            marker.push('C');
            marker.push('P');
            assert(marker@ =~= tcp_marker());
            if !contains(line, &marker) {
                return None;
            }
            2
        },
        Platform::Unix => 4,
    };
    let columns = split_words(line);
    if columns.len() > column {
        let address = host_of(&columns[column]);
        assert(texts(columns@)[column as int] == columns@[column as int]@);
        Some(address)
    } else {
        None
    }
}

/// The remote addresses that `rows` name, in the order of the rows.
pub fn collect_addresses(rows: &Vec<Vec<char>>, platform: Platform) -> (out: Vec<Vec<char>>)
    ensures
        texts(out@) == addresses(texts(rows@), platform),
{
    let mut out: Vec<Vec<char>> = Vec::new();
    let mut i: usize = 0;
    assert(texts(rows@).take(0) =~= Seq::<Seq<char>>::empty());
    while i < rows.len()
        invariant
            i <= rows.len(),
            texts(out@) == addresses(texts(rows@).take(i as int), platform),
        decreases rows.len() - i,
    {
        let ghost before = texts(out@);
        let ghost seen = texts(rows@).take(i as int + 1);
        assert(seen.drop_last() =~= texts(rows@).take(i as int));
        assert(seen.last() == rows@[i as int]@);
        match address_of_line(&rows[i], platform) {
            Some(address) => {
                out.push(address);
                assert(texts(out@) =~= before.push(address@));
            },
            None => {},
        }
        i += 1;
    }
    assert(texts(rows@).take(rows.len() as int) =~= texts(rows@));
    out
}

/// An index with no entry for `address` before it, and such an entry or
/// the end at it, is the entry index of `address`.
pub proof fn lemma_entry_index_is(t: Seq<(Seq<char>, nat)>, address: Seq<char>, n: int)
    requires
        0 <= n <= t.len(),
        forall|k: int| 0 <= k < n ==> (#[trigger] t[k]).0 != address,
        n < t.len() ==> t[n].0 == address,
    ensures
        entry_index(t, address) == n,
    decreases t.len(),
{
    if t.len() == 0 || n == 0 {
    } else {
        let rest = t.drop_first();
        assert(t[0].0 != address);
        assert forall|k: int| 0 <= k < n - 1 implies (#[trigger] rest[k]).0 != address by {
            assert(rest[k] == t[k + 1]);
        }
        if n - 1 < rest.len() {
            assert(rest[n - 1] == t[n]);
        }
        lemma_entry_index_is(rest, address, n - 1);
    }
}

/// An index with no entry that counts less than `count` before it, and
/// such an entry or the end at it, is the rank index of `count`.
pub proof fn lemma_rank_index_is(r: Seq<(Seq<char>, nat)>, count: nat, n: int)
    requires
        0 <= n <= r.len(),
        forall|k: int| 0 <= k < n ==> (#[trigger] r[k]).1 >= count,
        n < r.len() ==> r[n].1 < count,
    ensures
        rank_index(r, count) == n,
    decreases r.len(),
{
    if r.len() == 0 || n == 0 {
    } else {
        let rest = r.drop_first();
        assert(r[0].1 >= count);
        assert forall|k: int| 0 <= k < n - 1 implies (#[trigger] rest[k]).1 >= count by {
            assert(rest[k] == r[k + 1]);
        }
        if n - 1 < rest.len() {
            assert(rest[n - 1] == r[n]);
        }
        lemma_rank_index_is(rest, count, n - 1);
    }
}

fn find_entry(entries: &Vec<AddressCount>, address: &Vec<char>) -> (at: usize)
    ensures
        at == entry_index(counts(entries@), address@),
        at <= entries.len(),
{
    let mut at: usize = 0;
    while at < entries.len() && !same_chars(&entries[at].address, address)
        invariant
            at <= entries.len(),
            forall|k: int| 0 <= k < at ==> (#[trigger] counts(entries@)[k]).0 != address@,
        decreases entries.len() - at,
    {
        at += 1;
    }
    proof {
        lemma_entry_index_is(counts(entries@), address@, at as int);
    }
    at
}

/// Counts the occurrences of each address in `items`: one entry for each
/// address that occurs, in the order of first occurrence.
pub fn tally_addresses(items: &Vec<Vec<char>>) -> (out: Vec<AddressCount>)
    ensures
        counts(out@) == tally(texts(items@)),
        distinct_addresses(counts(out@)),
        forall|address: Seq<char>|
            count_for(counts(out@), address) == #[trigger] occurrences(texts(items@), address),
{
    let mut out: Vec<AddressCount> = Vec::new();
    let mut i: usize = 0;
    assert(texts(items@).take(0) =~= Seq::<Seq<char>>::empty());
    assert(counts(out@) =~= Seq::<(Seq<char>, nat)>::empty());
    while i < items.len()
        invariant
            i <= items.len(),
            counts(out@) == tally(texts(items@).take(i as int)),
            forall|k: int| 0 <= k < out.len() ==> (#[trigger] out@[k]).count <= i,
        decreases items.len() - i,
    {
        let ghost before = counts(out@);
        let ghost seen = texts(items@).take(i as int + 1);
        assert(seen.drop_last() =~= texts(items@).take(i as int));
        assert(seen.last() == items@[i as int]@);
        let at = find_entry(&out, &items[i]);
        if at < out.len() {
            let address = copy_of(&items[i]);
            let count: usize = out[at].count + 1;
            out.set(at, AddressCount { address, count });
            assert(counts(out@) =~= before.update(at as int, (items@[i as int]@, before[at as int].1 + 1)));
        } else {
            out.push(AddressCount { address: copy_of(&items[i]), count: 1 });
            assert(counts(out@) =~= before.push((items@[i as int]@, 1nat)));
        }
        i += 1;
    }
    assert(texts(items@).take(items.len() as int) =~= texts(items@));
    proof {
        lemma_tally_distinct(texts(items@));
        assert forall|address: Seq<char>|
            count_for(counts(out@), address) == #[trigger] occurrences(
                texts(items@),
                address,
            ) by {
            lemma_tally_counts(texts(items@), address);
        }
    }
    out
}

fn copy_of(text: &Vec<char>) -> (out: Vec<char>)
    ensures
        out@ == text@,
{
    let mut out: Vec<char> = Vec::new();
    push_chars(&mut out, text);
    out
}

fn find_rank(entries: &Vec<AddressCount>, count: usize) -> (at: usize)
    ensures
        at == rank_index(counts(entries@), count as nat),
        at <= entries.len(),
{
    let mut at: usize = 0;
    while at < entries.len() && entries[at].count >= count
        invariant
            at <= entries.len(),
            forall|k: int| 0 <= k < at ==> (#[trigger] counts(entries@)[k]).1 >= count,
        decreases entries.len() - at,
    {
        at += 1;
    }
    proof {
        lemma_rank_index_is(counts(entries@), count as nat, at as int);
    }
    at
}

/// Orders the entries by descending count; entries with the same count
/// keep their order.
pub fn rank_by_count(entries: &Vec<AddressCount>) -> (out: Vec<AddressCount>)
    ensures
        counts(out@) == ranked(counts(entries@)),
        descending(counts(out@)),
        counts(out@).to_multiset() == counts(entries@).to_multiset(),
{
    let mut out: Vec<AddressCount> = Vec::new();
    let mut i: usize = 0;
    assert(counts(entries@).take(0) =~= Seq::<(Seq<char>, nat)>::empty());
    assert(counts(out@) =~= Seq::<(Seq<char>, nat)>::empty());
    while i < entries.len()
        invariant
            i <= entries.len(),
            counts(out@) == ranked(counts(entries@).take(i as int)),
        decreases entries.len() - i,
    {
        let ghost before = counts(out@);
        let ghost seen = counts(entries@).take(i as int + 1);
        assert(seen.drop_last() =~= counts(entries@).take(i as int));
        assert(seen.last() == entries@[i as int]@);
        let at = find_rank(&out, entries[i].count);
        let entry = AddressCount { address: copy_of(&entries[i].address), count: entries[i].count };
        out.insert(at, entry);
        assert(counts(out@) =~= before.insert(at as int, entries@[i as int]@));
        i += 1;
    }
    assert(counts(entries@).take(entries.len() as int) =~= counts(entries@));
    proof {
        lemma_ranked_descending(counts(entries@));
        lemma_ranked_permutes(counts(entries@));
    }
    out
}

/// Writes the summary lines of `entries`.
pub fn render_summary(entries: &Vec<AddressCount>) -> (out: Vec<char>)
    ensures
        out@ == render(counts(entries@)),
{
    let mut out: Vec<char> = Vec::new();
    let mut i: usize = 0;
    assert(counts(entries@).take(0) =~= Seq::<(Seq<char>, nat)>::empty());
    while i < entries.len()
        invariant
            i <= entries.len(),
            out@ == render(counts(entries@).take(i as int)),
        decreases entries.len() - i,
    {
        let ghost before = out@;
        let ghost seen = counts(entries@).take(i as int + 1);
        assert(seen.drop_last() =~= counts(entries@).take(i as int));
        assert(seen.last() == entries@[i as int]@);
        if i > 0 {
            out.push('\n');
        }
        let ghost start = out@;
        push_decimal(&mut out, entries[i].count);
        out.push(' ');
        out.push('-');
        out.push('>');
        out.push(' ');
        push_chars(&mut out, &entries[i].address);
        assert(out@ =~= start + summary_line(entries@[i as int]@));
        if i == 0 {
            assert(seen =~= seq![entries@[0]@]);
            assert(out@ =~= summary_line(seen[0]));
        } else {
            assert(out@ =~= before + seq!['\n'] + summary_line(seen.last()));
        }
        i += 1;
    }
    assert(counts(entries@).take(entries.len() as int) =~= counts(entries@));
    out
}

/// The summary of the connections that the command's output lists: one
/// line per remote address, most frequent first.
pub fn connection_summary(output: &str, platform: Platform) -> (out: String)
    ensures
        out@ == census_summary(output@, platform),
{
    let text = chars_of(output);
    let rows = split_lines(&text);
    let found = collect_addresses(&rows, platform);
    let entries = tally_addresses(&found);
    let ordered = rank_by_count(&entries);
    let summary = render_summary(&ordered);
    string_of(&summary)
}

/// What the log shows in place of a summary when the command could not be
/// run.
pub open spec fn unavailable_text() -> Seq<char> {
    "[!] Unable to fetch netstat info"@
}

/// The connection part of a log entry: the summary of the command's
/// output, or the notice that there is none.
pub open spec fn census_report(output: Option<Seq<char>>, platform: Platform) -> Seq<char> {
    match output {
        Some(text) => census_summary(text, platform),
        None => unavailable_text(),
    }
}

/// The connection part of a log entry. `output` is what the command
/// printed, or nothing where it could not be run.
pub fn connection_report(output: Option<&str>, platform: Platform) -> (out: String)
    ensures
        out@ == census_report(
            match output {
                Some(text) => Some(text@),
                None => None,
            },
            platform,
        ),
{
    match output {
        Some(text) => connection_summary(text, platform),
        None => String::from_str("[!] Unable to fetch netstat info"),
    }
}

} // verus!
