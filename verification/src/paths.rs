//! Filesystem paths carried through the library, and the local network
//! address lookup.
use vstd::prelude::*;
use std::path::PathBuf;

verus! {

#[verifier::external_type_specification]
#[verifier::external_body]
pub struct ExPathBuf(std::path::PathBuf);

/// What `Path::join` gives for a directory and a name. Joining follows the
/// path rules of the platform the crate is built for (an absolute `name`
/// replaces `dir`); within one build the result depends on the two
/// arguments alone.
pub uninterp spec fn joined_path(dir: PathBuf, name: Seq<char>) -> PathBuf;

/// `Path::join`: the path of `name` inside `dir`. Its result is named by
/// `joined_path`; nothing more of the platform's path rules is stated.
#[verifier::external_body]
pub(crate) fn join_path(dir: &PathBuf, name: &str) -> (p: PathBuf)
    ensures
        p == joined_path(*dir, name@),
{
    dir.join(name)
}

/// A copy of a path (`PathBuf::clone`): the same path. Paths are opaque
/// here; the copy is stated equal to the original, as `Clone` documents.
#[verifier::external_body]
pub(crate) fn clone_path(p: &PathBuf) -> (c: PathBuf)
    ensures
        c == *p,
{
    p.clone()
}

/// `local_ip_address::local_ip`, rendered with `IpAddr`'s `Display`:
/// the text of this machine's local IP address, or `None` when the
/// operating system reports none.
///
/// Which address it is depends on the machine's network configuration at
/// the time of the call; what holds of every outcome is that the text is
/// not empty (`IpAddr` is written as dotted decimal or RFC 5952 text).
#[verifier::external_body]
pub(crate) fn local_ip_text() -> (r: Option<String>)
    ensures
        r matches Some(s) ==> s@.len() > 0,
{
    match local_ip_address::local_ip() {
        Ok(ip) => Some(ip.to_string()),
        Err(_) => None,
    }
}

/// The address used when the local address cannot be found.
pub open spec fn loopback_text() -> Seq<char> {
    "127.0.0.1"@
}

/// The address to advertise: the one found, or "127.0.0.1" when none was.
pub fn local_ip_or_loopback(found: Option<String>) -> (ip: String)
    ensures
        found matches Some(s) ==> ip@ == s@,
        found is None ==> ip@ == loopback_text(),
{
    match found {
        Some(ip) => ip,
        None => loopback(),
    }
}

/// This machine's local IP address, or "127.0.0.1" when the operating
/// system reports none. Either way the text is not empty.
pub fn discover_local_ip() -> (ip: String)
    ensures
        ip@.len() > 0,
{
    proof {
        reveal_strlit("127.0.0.1");
    }
    local_ip_or_loopback(local_ip_text())
}

/// "127.0.0.1".
pub fn loopback() -> (ip: String)
    ensures
        ip@ == loopback_text(),
{
    "127.0.0.1".to_owned()
}

} // verus!
