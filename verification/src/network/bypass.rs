//! Bypass routes: addresses and networks whose traffic does not go through
//! the TUN device.

use vstd::prelude::*;

verus! {

/// The text `ipnetwork::IpNetwork` displays for what it parses out of `s`:
/// `{address}/{prefix}`, where `s` is a network or a bare address.
pub uninterp spec fn ip_network_text(s: Seq<char>) -> Option<Seq<char>>;

/// `IpNetwork::from_str`, then `to_string`. The result is named
/// `ip_network_text`; what the crate's source shows of it is that the text
/// is an address, `/`, and a prefix length.
#[verifier::external_body]
fn parse_network(s: &str) -> (r: Option<String>)
    ensures
        match r {
            Some(t) => ip_network_text(s@) == Some(t@) && t@.contains('/'),
            None => ip_network_text(s@) is None,
        },
{
    s.parse::<ipnetwork::IpNetwork>().ok().map(|n| n.to_string())
}

/// A single address written with its full prefix: `/32` for IPv4, `/128`
/// for IPv6.
pub open spec fn host_route(address: Seq<char>, v4: bool) -> Seq<char> {
    address + if v4 {
        "/32"@
    } else {
        "/128"@
    }
}

/// The route for a single address, given as `std::net::IpAddr` displays it
/// (see `host_route`). This is how a target that is no network is kept
/// when it parses as an address.
pub fn normalize_address(address: &str, v4: bool) -> (r: String)
    ensures
        r@ == host_route(address@, v4),
{
    let mut a = address.to_owned();
    if v4 {
        a.append("/32");
    } else {
        a.append("/128");
    }
    a
}

/// A target that is neither a network nor an address.
#[derive(Debug, Clone, Copy, PartialEq, Eq, Structural)]
pub struct InvalidTarget;

impl InvalidTarget {
    /// What `std::net::AddrParseError` displays.
    pub fn message(&self) -> (m: &'static str)
        ensures
            m@ == "invalid IP address syntax"@,
    {
        "invalid IP address syntax"
    }
}

/// Puts a bypass target that is a network, or a bare address, in the form
/// the network crate writes it. Where it is neither, the caller tries it as
/// an address (see `normalize_address`).
pub fn normalize_target(target: &str) -> (r: Result<String, InvalidTarget>)
    ensures
        match r {
            Ok(t) => ip_network_text(target@) == Some(t@),
            Err(_) => ip_network_text(target@) is None,
        },
{
    match parse_network(target) {
        Some(n) => Ok(n),
        None => Err(InvalidTarget),
    }
}

} // verus!
