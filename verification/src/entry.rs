//! The text of log entries.
//!
//! Every entry starts with a bracketed timestamp and ends with a separator
//! line, so a log made of entries can be read back block by block.

use vstd::prelude::*;
use vstd::string::*;

verus! {

/// Number of dashes in a separator line.
pub const SEPARATOR_WIDTH: usize = 50;

/// The separator line, without its line break.
pub open spec fn separator() -> Seq<char> {
    Seq::new(SEPARATOR_WIDTH as nat, |i: int| '-')
}

/// The entry logged when the public address could not be fetched.
pub open spec fn error_entry(time: Seq<char>) -> Seq<char> {
    "["@ + time + "] Network error.\n"@ + separator() + "\n"@
}

/// The entry logged on every successful poll.
pub open spec fn base_entry(time: Seq<char>, ip: Seq<char>, connections: Seq<char>) -> Seq<char> {
    "["@ + time + "] Active IP: "@ + ip + "\nConnected IPs:\n"@ + connections + "\n"@ + separator()
        + "\n"@
}

/// The block that announces a change of the public address.
pub open spec fn change_block(time: Seq<char>, old_ip: Seq<char>, new_ip: Seq<char>) -> Seq<char> {
    "["@ + time + "] IP Changed!\nOld: "@ + old_ip + "\nNew: "@ + new_ip + "\n"@ + separator()
        + "\n"@
}

/// What one successful poll appends: the base entry, preceded by a change
/// block when an address was known before and differs from the new one.
pub open spec fn success_text(
    last_ip: Option<Seq<char>>,
    time: Seq<char>,
    ip: Seq<char>,
    connections: Seq<char>,
) -> Seq<char> {
    match last_ip {
        Some(old_ip) if old_ip != ip => change_block(time, old_ip, ip) + base_entry(
            time,
            ip,
            connections,
        ),
        _ => base_entry(time, ip, connections),
    }
}

fn push_separator(out: &mut String)
    ensures
        final(out)@ == old(out)@ + separator() + "\n"@,
{
    out.append("--------------------------------------------------");
    out.append("\n");
    proof {
        reveal_strlit("--------------------------------------------------");
        assert("--------------------------------------------------"@ =~= separator());
    }
}

/// Writes the entry for a poll that found no address.
pub fn format_error_entry(time: &str) -> (out: String)
    ensures
        out@ == error_entry(time@),
{
    let mut out = String::from_str("[");
    out.append(time);
    out.append("] Network error.\n");
    push_separator(&mut out);
    out
}

/// Writes the entry for a poll that found the address `ip`.
pub fn format_base_entry(time: &str, ip: &str, connections: &str) -> (out: String)
    ensures
        out@ == base_entry(time@, ip@, connections@),
{
    let mut out = String::from_str("[");
    out.append(time);
    out.append("] Active IP: ");
    out.append(ip);
    out.append("\nConnected IPs:\n");
    out.append(connections);
    out.append("\n");
    push_separator(&mut out);
    out
}

/// Writes the block that announces the change from `old_ip` to `new_ip`.
pub fn format_change_block(time: &str, old_ip: &str, new_ip: &str) -> (out: String)
    ensures
        out@ == change_block(time@, old_ip@, new_ip@),
{
    let mut out = String::from_str("[");
    out.append(time);
    out.append("] IP Changed!\nOld: ");
    out.append(old_ip);
    out.append("\nNew: ");
    out.append(new_ip);
    out.append("\n");
    push_separator(&mut out);
    out
}

} // verus!
