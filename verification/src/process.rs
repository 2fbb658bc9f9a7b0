//! What is known of the process behind a connection.
use vstd::prelude::*;
use crate::net::{decimal, push_decimal};
use crate::text::{is_space, trim, trimmed};

verus! {

/// The path of the entry `entry` of process `pid` under `/proc`.
pub open spec fn proc_entry_path(pid: u32, entry: Seq<char>) -> Seq<char> {
    "/proc/"@ + decimal(pid as nat) + "/"@ + entry
}

/// The path `/proc/<pid>/<entry>`.
pub fn proc_path(pid: u32, entry: &str) -> (path: String)
    ensures
        path@ == proc_entry_path(pid, entry@),
{
    let mut path = "/proc/".to_owned();
    push_decimal(&mut path, pid);
    path.append("/");
    path.append(entry);
    path
}

/// The name of a process, from the contents of its `comm` entry when it could
/// be read: those contents, or `"unknown"`, without surrounding whitespace.
pub fn process_name_from_comm(comm: Option<String>) -> (name: String)
    ensures
        name@ == trimmed(
            match comm {
                Some(c) => c@,
                None => "unknown"@,
            },
        ),
        name@.len() > 0 ==> !is_space(name@[0]) && !is_space(name@.last()),
{
    match comm {
        Some(c) => trim(c.as_str()),
        None => trim("unknown"),
    }
}

/// The executable of a process, from the target of its `exe` link when it
/// could be read, or `"unknown"`.
pub fn executable_from_link(link: Option<String>) -> (exe: String)
    ensures
        exe@ == match link {
            Some(l) => l@,
            None => "unknown"@,
        },
{
    match link {
        Some(l) => l,
        None => "unknown".to_owned(),
    }
}

} // verus!
