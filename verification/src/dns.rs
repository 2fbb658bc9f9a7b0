//! The name that a connection's remote address is shown under.
use vstd::prelude::*;

verus! {

/// The hostname for the address text `ip`, given the outcome of its reverse
/// lookup: the name found, or the address itself when the address could not be
/// parsed or no name was found.
pub fn hostname_or_ip(ip: &str, found: Option<String>) -> (name: String)
    ensures
        name@ == match found {
            Some(host) => host@,
            None => ip@,
        },
{
    match found {
        Some(host) => host,
        None => ip.to_owned(),
    }
}

} // verus!
